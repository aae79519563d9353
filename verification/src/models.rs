//! The names under which models are stored.

use crate::error::{fails_with, ErrorKind, TranscribeError};
use crate::text::{chars_of, push_str};
use vstd::prelude::*;

verus! {

/// The name of the file that holds the model `model`.
pub open spec fn model_file(model: Seq<char>) -> Seq<char> {
    "ggml-"@ + model + ".bin"@
}

/// The name of the file that holds the model `model`.
pub fn model_file_name(model: &str) -> (name: String)
    ensures
        name@ == model_file(model@),
{
    let mut name = String::new();
    push_str(&mut name, "ggml-");
    push_str(&mut name, model);
    push_str(&mut name, ".bin");
    assert(name@ =~= model_file(model@));
    name
}

/// The model to use: the one the caller names, or `fallback`.
pub fn model_or(model_name: Option<String>, fallback: &str) -> (model: String)
    ensures
        model@ == match model_name {
            Some(name) => name@,
            None => fallback@,
        },
{
    match model_name {
        Some(name) => name,
        None => fallback.to_owned(),
    }
}

fn starts_with(name: &Vec<char>, prefix: &Vec<char>) -> (yes: bool)
    ensures
        yes == prefix@.is_prefix_of(name@),
{
    if prefix.len() > name.len() {
        return false;
    }
    let mut i: usize = 0;
    while i < prefix.len()
        invariant
            i <= prefix.len() <= name.len(),
            forall|k: int| 0 <= k < i ==> prefix[k] == name[k],
        decreases prefix.len() - i,
    {
        if prefix[i] != name[i] {
            assert(name@.subrange(0, prefix.len() as int)[i as int] != prefix@[i as int]);
            return false;
        }
        i += 1;
    }
    assert(name@.subrange(0, prefix.len() as int) =~= prefix@);
    true
}

fn ends_with(name: &Vec<char>, suffix: &Vec<char>) -> (yes: bool)
    ensures
        yes == suffix@.is_suffix_of(name@),
{
    if suffix.len() > name.len() {
        return false;
    }
    let shift: usize = name.len() - suffix.len();
    let mut i: usize = 0;
    while i < suffix.len()
        invariant
            i <= suffix.len() <= name.len(),
            shift == name.len() - suffix.len(),
            forall|k: int| 0 <= k < i ==> suffix[k] == name[shift + k],
        decreases suffix.len() - i,
    {
        if suffix[i] != name[shift + i] {
            assert(name@.subrange(shift as int, name.len() as int)[i as int] != suffix@[i as int]);
            return false;
        }
        i += 1;
    }
    assert(name@.subrange(shift as int, name.len() as int) =~= suffix@);
    true
}

/// Whether a file of this name holds a model: the name starts with `ggml-`
/// and ends with `.bin`.
pub fn is_model_file(name: &str) -> (yes: bool)
    ensures
        yes == ("ggml-"@.is_prefix_of(name@) && ".bin"@.is_suffix_of(name@)),
{
    let chars = chars_of(name);
    starts_with(&chars, &chars_of("ggml-")) && ends_with(&chars, &chars_of(".bin"))
}

/// Whether a directory of this name holds a streaming model: the name starts
/// with `vosk-model-`.
pub fn is_streaming_model_dir(name: &str) -> (yes: bool)
    ensures
        yes == "vosk-model-"@.is_prefix_of(name@),
{
    starts_with(&chars_of(name), &chars_of("vosk-model-"))
}

/// Whether `result` says what stands in the way of a job on the recording at
/// `file_path` with the model `model`: a recording that is not there, else a
/// model that is not there, else nothing.
pub open spec fn is_preflight(
    result: Result<(), TranscribeError>,
    file_path: Seq<char>,
    input_exists: bool,
    model: Seq<char>,
    model_exists: bool,
) -> bool {
    if !input_exists {
        fails_with(result, ErrorKind::InputNotFound, file_path)
    } else if !model_exists {
        fails_with(result, ErrorKind::ModelNotFound, model)
    } else {
        result is Ok
    }
}

/// Says what stands in the way of a job before any work is done.
pub fn preflight(file_path: &str, input_exists: bool, model: &str, model_exists: bool) -> (result:
    Result<(), TranscribeError>)
    ensures
        is_preflight(result, file_path@, input_exists, model@, model_exists),
{
    if !input_exists {
        Err(TranscribeError::new(ErrorKind::InputNotFound, file_path.to_owned()))
    } else if !model_exists {
        Err(TranscribeError::new(ErrorKind::ModelNotFound, model.to_owned()))
    } else {
        Ok(())
    }
}

} // verus!
