//! Reading the cue numbers back out of SRT text.
//!
//! An SRT text is a row of cues. A cue is a line with its number, a line with
//! its times, the lines of its text, and an empty line. Empty lines between
//! cues are passed over.

use crate::text::{chars_of, string_of};
use vstd::prelude::*;

verus! {

/// The length of the first line of `s`: the number of characters before the
/// first line feed, or all of them.
pub open spec fn line_len(s: Seq<char>) -> nat
    decreases s.len(),
{
    if s.len() == 0 || s[0] == '\n' {
        0
    } else {
        1 + line_len(s.drop_first())
    }
}

/// The first line of `s`, without its line feed.
pub open spec fn first_line(s: Seq<char>) -> Seq<char> {
    s.take(line_len(s) as int)
}

/// What follows the first line of `s` and its line feed.
pub open spec fn after_line(s: Seq<char>) -> Seq<char> {
    if line_len(s) < s.len() {
        s.skip(line_len(s) as int + 1)
    } else {
        Seq::empty()
    }
}

/// What follows the text of a cue: `s` from behind its first empty line.
pub open spec fn after_text(s: Seq<char>) -> Seq<char>
    decreases s.len(),
    via after_text_decreases
{
    if s.len() == 0 {
        s
    } else if s[0] == '\n' {
        s.drop_first()
    } else {
        after_text(after_line(s))
    }
}

#[via_fn]
proof fn after_text_decreases(s: Seq<char>) {
    lemma_line_len(s);
}

/// What follows the first cue of `s`, which begins with the cue's number.
pub open spec fn after_cue(s: Seq<char>) -> Seq<char> {
    after_text(after_line(after_line(s)))
}

/// The number lines of the cues of an SRT text, in order.
pub open spec fn cue_index_lines(s: Seq<char>) -> Seq<Seq<char>>
    decreases s.len(),
    via cue_index_lines_decreases
{
    if s.len() == 0 {
        Seq::empty()
    } else if s[0] == '\n' {
        cue_index_lines(s.drop_first())
    } else {
        seq![first_line(s)] + cue_index_lines(after_cue(s))
    }
}

#[via_fn]
proof fn cue_index_lines_decreases(s: Seq<char>) {
    if s.len() > 0 && s[0] != '\n' {
        lemma_line_len(s);
        lemma_line_len(after_line(s));
        lemma_after_text_len(after_line(after_line(s)));
    }
}

/// The first line ends at the first line feed.
pub proof fn lemma_line_len(s: Seq<char>)
    ensures
        line_len(s) <= s.len(),
        forall|i: int| 0 <= i < line_len(s) ==> s[i] != '\n',
        line_len(s) < s.len() ==> s[line_len(s) as int] == '\n',
        after_line(s).len() <= s.len(),
        s.len() > 0 ==> after_line(s).len() < s.len(),
    decreases s.len(),
{
    if s.len() == 0 || s[0] == '\n' {
    } else {
        let r = s.drop_first();
        lemma_line_len(r);
        assert forall|i: int| 0 <= i < line_len(s) implies s[i] != '\n' by {
            if i > 0 {
                assert(s[i] == r[i - 1]);
            }
        }
    }
}

/// What follows the text of a cue is no longer than what it was taken from.
pub proof fn lemma_after_text_len(s: Seq<char>)
    ensures
        after_text(s).len() <= s.len(),
    decreases s.len(),
{
    if s.len() == 0 {
    } else if s[0] == '\n' {
    } else {
        lemma_line_len(s);
        lemma_after_text_len(after_line(s));
    }
}

/// A line without line feed, followed by a line feed, is the first line of
/// whatever it stands before.
pub proof fn lemma_line_split(line: Seq<char>, rest: Seq<char>)
    requires
        forall|i: int| 0 <= i < line.len() ==> line[i] != '\n',
    ensures
        line_len(line + seq!['\n'] + rest) == line.len(),
        first_line(line + seq!['\n'] + rest) == line,
        after_line(line + seq!['\n'] + rest) == rest,
    decreases line.len(),
{
    let s = line + seq!['\n'] + rest;
    if line.len() == 0 {
        assert(s[0] == '\n');
    } else {
        assert(s[0] == line[0]);
        assert(s.drop_first() =~= line.drop_first() + seq!['\n'] + rest);
        lemma_line_split(line.drop_first(), rest);
    }
    assert(s.take(line.len() as int) =~= line);
    assert(s.skip(line.len() as int + 1) =~= rest);
}

/// Whether `text` has no empty line inside and neither begins nor ends with
/// a line feed.
pub open spec fn is_cue_text(text: Seq<char>) -> bool {
    &&& text.len() > 0 ==> text[0] != '\n' && text.last() != '\n'
    &&& forall|i: int|
        0 <= i < text.len() - 1 ==> !(text[i] == '\n' && #[trigger] text[i + 1] == '\n')
}

/// Behind the text of a cue and its empty line comes what follows the cue;
/// where the text is empty, one line feed more is left.
pub proof fn lemma_after_cue_text(text: Seq<char>, rest: Seq<char>)
    requires
        is_cue_text(text),
    ensures
        after_text(text + seq!['\n', '\n'] + rest) == if text.len() == 0 {
            seq!['\n'] + rest
        } else {
            rest
        },
    decreases text.len(),
{
    let s = text + seq!['\n', '\n'] + rest;
    if text.len() == 0 {
        assert(s[0] == '\n');
        assert(s.drop_first() =~= seq!['\n'] + rest);
        assert(after_text(s) == s.drop_first());
    } else {
        assert(s[0] == text[0]);
        assert(after_text(s) == after_text(after_line(s)));
        lemma_line_len(text);
        let k = line_len(text) as int;
        let line = text.take(k);
        if k == text.len() {
            assert(line =~= text);
            assert(s =~= line + seq!['\n'] + (seq!['\n'] + rest));
            lemma_line_split(line, seq!['\n'] + rest);
            let t = seq!['\n'] + rest;
            assert(after_line(s) == t);
            assert(t[0] == '\n');
            assert(t.drop_first() =~= rest);
            assert(after_text(t) == t.drop_first());
        } else {
            let tail = text.skip(k + 1);
            assert(text[k] == '\n');
            assert(k + 1 < text.len());
            assert(text[k + 1] != '\n');
            assert(s =~= line + seq!['\n'] + (tail + seq!['\n', '\n'] + rest));
            lemma_line_split(line, tail + seq!['\n', '\n'] + rest);
            assert(after_line(s) == tail + seq!['\n', '\n'] + rest);
            assert(is_cue_text(tail)) by {
                assert(tail[0] == text[k + 1]);
                assert(tail.last() == text.last());
                assert forall|i: int| 0 <= i < tail.len() - 1 implies !(tail[i] == '\n'
                    && #[trigger] tail[i + 1] == '\n') by {
                    assert(tail[i] == text[k + 1 + i]);
                    assert(tail[i + 1] == text[k + 1 + i + 1]);
                }
            }
            lemma_after_cue_text(tail, rest);
        }
    }
}

/// A cue made of a number line, a times line and a text is read as one cue:
/// its number line comes first, and reading goes on behind it.
pub proof fn lemma_read_cue(
    number: Seq<char>,
    times: Seq<char>,
    text: Seq<char>,
    rest: Seq<char>,
)
    requires
        number.len() > 0,
        forall|i: int| 0 <= i < number.len() ==> number[i] != '\n',
        forall|i: int| 0 <= i < times.len() ==> times[i] != '\n',
        is_cue_text(text),
    ensures
        cue_index_lines(number + seq!['\n'] + times + seq!['\n'] + text + seq!['\n', '\n'] + rest)
            == seq![number] + cue_index_lines(rest),
{
    let s = number + seq!['\n'] + times + seq!['\n'] + text + seq!['\n', '\n'] + rest;
    let body = text + seq!['\n', '\n'] + rest;
    let from_times = times + seq!['\n'] + body;
    assert(s =~= number + seq!['\n'] + from_times);
    assert(s[0] == number[0]);
    lemma_line_split(number, from_times);
    lemma_line_split(times, body);
    lemma_after_cue_text(text, rest);
    assert(first_line(s) == number);
    assert(after_line(s) == from_times);
    assert(after_line(from_times) == body);
    assert(cue_index_lines(s) == seq![first_line(s)] + cue_index_lines(after_cue(s)));
    if text.len() == 0 {
        let t = seq!['\n'] + rest;
        assert(after_cue(s) == t);
        assert(t[0] == '\n');
        assert(t.drop_first() =~= rest);
        assert(cue_index_lines(t) == cue_index_lines(t.drop_first()));
    } else {
        assert(after_cue(s) == rest);
    }
}

fn line_end(v: &Vec<char>, from: usize) -> (end: usize)
    requires
        from <= v.len(),
    ensures
        from <= end <= v.len(),
        end == from + line_len(v@.skip(from as int)),
{
    let mut end: usize = from;
    while end < v.len() && v[end] != '\n'
        invariant
            from <= end <= v.len(),
            from + line_len(v@.skip(from as int)) == end + line_len(v@.skip(end as int)),
        decreases v.len() - end,
    {
        assert(v@.skip(end as int).drop_first() == v@.skip(end + 1));
        end += 1;
    }
    end
}

fn next_line(v: &Vec<char>, from: usize) -> (next: usize)
    requires
        from <= v.len(),
    ensures
        from <= next <= v.len(),
        from < v.len() ==> from < next,
        v@.skip(next as int) == after_line(v@.skip(from as int)),
{
    let end = line_end(v, from);
    if end < v.len() {
        assert(v@.skip(from as int).skip(end - from + 1) == v@.skip(end + 1));
        end + 1
    } else {
        assert(v@.skip(end as int) == Seq::<char>::empty());
        end
    }
}

fn skip_cue_text(v: &Vec<char>, from: usize) -> (next: usize)
    requires
        from <= v.len(),
    ensures
        from <= next <= v.len(),
        v@.skip(next as int) == after_text(v@.skip(from as int)),
{
    let mut at: usize = from;
    loop
        invariant_except_break
            after_text(v@.skip(from as int)) == after_text(v@.skip(at as int)),
        invariant
            from <= at <= v.len(),
        ensures
            v@.skip(at as int) == after_text(v@.skip(from as int)),
        decreases v.len() - at,
    {
        if at >= v.len() {
            break ;
        }
        if v[at] == '\n' {
            assert(v@.skip(at as int).drop_first() == v@.skip(at + 1));
            at += 1;
            break ;
        }
        at = next_line(v, at);
    }
    at
}

/// The values of a list of strings.
pub open spec fn line_views(lines: Seq<String>) -> Seq<Seq<char>> {
    lines.map_values(|l: String| l@)
}

/// The number lines of the cues of an SRT text, in order.
pub fn srt_index_lines(srt: &str) -> (lines: Vec<String>)
    ensures
        line_views(lines@) == cue_index_lines(srt@),
{
    let v = chars_of(srt);
    let mut lines: Vec<String> = Vec::new();
    let mut at: usize = 0;
    assert(v@.skip(0) == v@);
    assert(line_views(lines@) + cue_index_lines(v@) =~= cue_index_lines(v@));
    while at < v.len()
        invariant
            at <= v.len(),
            v@ == srt@,
            cue_index_lines(v@) == line_views(lines@) + cue_index_lines(v@.skip(at as int)),
        decreases v.len() - at,
    {
        let ghost here = v@.skip(at as int);
        if v[at] == '\n' {
            assert(here.drop_first() == v@.skip(at + 1));
            at += 1;
        } else {
            let ghost was = lines@;
            let end = line_end(&v, at);
            lines.push(string_of(&v, at, end));
            let times = next_line(&v, at);
            let text = next_line(&v, times);
            let next = skip_cue_text(&v, text);
            proof {
                assert(v@.subrange(at as int, end as int) == first_line(here));
                assert(line_views(lines@) =~= line_views(was).push(first_line(here)));
                assert(v@.skip(next as int) == after_cue(here));
                assert(line_views(lines@) + cue_index_lines(after_cue(here)) =~= line_views(was) + (
                seq![first_line(here)] + cue_index_lines(after_cue(here))));
            }
            at = next;
        }
    }
    assert(v@.skip(at as int) == Seq::<char>::empty());
    assert(line_views(lines@) + Seq::<Seq<char>>::empty() =~= line_views(lines@));
    lines
}

} // verus!
