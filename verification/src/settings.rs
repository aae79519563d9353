//! What a caller may set for the decoding of a recording, and what the
//! engine is told in the end.

use crate::gate::{decoder_threads_for, threads_for};
use crate::worker::{language_hint, language_hint_text};
use vstd::prelude::*;

verus! {

/// How the engine is to search: `strategy_type` names the search, and each
/// search reads its own number.
#[derive(Debug)]
pub struct SamplingStrategyConfig {
    /// `beam_search` for beam search; anything else stands for greedy search.
    pub strategy_type: String,
    /// For greedy search: the number of candidates.
    pub best_of: Option<i32>,
    /// For beam search: the width of the beam.
    pub beam_size: Option<i32>,
}

/// What a caller may set for the decoding of a recording.
#[derive(Debug)]
pub struct TranscriptionSettings {
    pub preset: String,
    pub sampling_strategy: SamplingStrategyConfig,
    /// Kept for callers; the engine always decodes with every processor.
    pub thread_count: Option<String>,
    pub no_context: bool,
    pub initial_prompt: Option<String>,
    pub max_text_context: Option<i32>,
}

/// The search the engine is told to make.
#[derive(Debug, Clone, Copy, PartialEq, Eq, Structural)]
pub enum SamplingPlan {
    Greedy { best_of: i32 },
    BeamSearch { beam_size: i32 },
}

/// What the engine is told for one decoding.
#[derive(Debug)]
pub struct DecodePlan {
    pub sampling: SamplingPlan,
    /// The language to expect, or `auto` to find it out.
    pub language: String,
    pub threads: i32,
    pub no_context: bool,
    /// The text to start from; never empty.
    pub initial_prompt: Option<String>,
}

/// The number a search falls back on where the caller gives none.
pub const DEFAULT_SEARCH_WIDTH: i32 = 5;

/// The search that a caller's settings ask for.
pub open spec fn chosen_sampling(config: SamplingStrategyConfig) -> SamplingPlan {
    if config.strategy_type@ == "beam_search"@ {
        SamplingPlan::BeamSearch {
            beam_size: match config.beam_size {
                Some(n) => n,
                None => DEFAULT_SEARCH_WIDTH,
            },
        }
    } else {
        SamplingPlan::Greedy {
            best_of: match config.best_of {
                Some(n) => n,
                None => DEFAULT_SEARCH_WIDTH,
            },
        }
    }
}

/// The text the engine starts from: the caller's, unless it is empty.
pub open spec fn chosen_prompt(prompt: Option<String>) -> Option<Seq<char>> {
    match prompt {
        Some(text) => if text@.len() == 0 {
            None
        } else {
            Some(text@)
        },
        None => None,
    }
}

/// The text a plan starts from.
pub open spec fn prompt_of(plan: DecodePlan) -> Option<Seq<char>> {
    match plan.initial_prompt {
        Some(text) => Some(text@),
        None => None,
    }
}

/// Whether `plan` is what the settings give for a machine of `cpus` logical
/// processors.
pub open spec fn is_plan_for(
    plan: DecodePlan,
    settings: TranscriptionSettings,
    auto_detect_language: bool,
    cpus: nat,
) -> bool {
    &&& plan.sampling == chosen_sampling(settings.sampling_strategy)
    &&& plan.language@ == language_hint_text(auto_detect_language)
    &&& plan.threads == threads_for(cpus)
    &&& plan.no_context == settings.no_context
    &&& prompt_of(plan) == chosen_prompt(settings.initial_prompt)
}

/// Whether `settings` are those of a caller who set nothing: the balanced
/// preset, greedy search among five candidates, no context, no prompt.
pub open spec fn is_default_settings(settings: TranscriptionSettings) -> bool {
    &&& settings.preset@ == "balanced"@
    &&& settings.sampling_strategy.strategy_type@ == "greedy"@
    &&& settings.sampling_strategy.best_of == Some(DEFAULT_SEARCH_WIDTH)
    &&& settings.sampling_strategy.beam_size is None
    &&& settings.thread_count matches Some(t) && t@ == "auto"@
    &&& settings.no_context
    &&& settings.initial_prompt is None
    &&& settings.max_text_context is None
}

impl TranscriptionSettings {
    /// The settings of a caller who set nothing.
    pub fn balanced() -> (settings: TranscriptionSettings)
        ensures
            is_default_settings(settings),
    {
        TranscriptionSettings {
            preset: "balanced".to_owned(),
            sampling_strategy: SamplingStrategyConfig {
                strategy_type: "greedy".to_owned(),
                best_of: Some(DEFAULT_SEARCH_WIDTH),
                beam_size: None,
            },
            thread_count: Some("auto".to_owned()),
            no_context: true,
            initial_prompt: None,
            max_text_context: None,
        }
    }
}

/// The search that a caller's settings ask for.
pub fn choose_sampling(config: &SamplingStrategyConfig) -> (plan: SamplingPlan)
    ensures
        plan == chosen_sampling(*config),
{
    let beam = "beam_search".to_owned();
    if config.strategy_type == beam {
        SamplingPlan::BeamSearch {
            beam_size: match config.beam_size {
                Some(n) => n,
                None => DEFAULT_SEARCH_WIDTH,
            },
        }
    } else {
        SamplingPlan::Greedy {
            best_of: match config.best_of {
                Some(n) => n,
                None => DEFAULT_SEARCH_WIDTH,
            },
        }
    }
}

/// What the engine is told for the decoding of a recording, on a machine of
/// `cpus` logical processors.
pub fn plan_decoding(
    settings: TranscriptionSettings,
    auto_detect_language: bool,
    cpus: usize,
) -> (plan: DecodePlan)
    ensures
        is_plan_for(plan, settings, auto_detect_language, cpus as nat),
{
    let sampling = choose_sampling(&settings.sampling_strategy);
    let initial_prompt = match settings.initial_prompt {
        Some(text) => if text.as_str().unicode_len() == 0 {
            None
        } else {
            Some(text)
        },
        None => None,
    };
    DecodePlan {
        sampling,
        language: language_hint(auto_detect_language),
        threads: decoder_threads_for(cpus),
        no_context: settings.no_context,
        initial_prompt,
    }
}

/// Whether `plan` is the one for a live chunk on a machine of `cpus` logical
/// processors: the quickest search, the language found out, no context, no
/// prompt.
pub open spec fn is_live_plan(plan: DecodePlan, cpus: nat) -> bool {
    &&& plan.sampling == SamplingPlan::Greedy { best_of: 1 }
    &&& plan.language@ == language_hint_text(true)
    &&& plan.threads == threads_for(cpus)
    &&& plan.no_context
    &&& plan.initial_prompt is None
}

/// What the engine is told for the decoding of a live chunk.
pub fn plan_live_decoding(cpus: usize) -> (plan: DecodePlan)
    ensures
        is_live_plan(plan, cpus as nat),
{
    DecodePlan {
        sampling: SamplingPlan::Greedy { best_of: 1 },
        language: language_hint(true),
        threads: decoder_threads_for(cpus),
        no_context: true,
        initial_prompt: None,
    }
}

} // verus!
