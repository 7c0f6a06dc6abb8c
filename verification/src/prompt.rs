//! The word that ends a session of prompts.

use vstd::prelude::*;
use vstd::string::*;
use crate::fields::{is_space, is_whitespace, same_text};

verus! {

/// `text` without the spaces at its beginning.
pub open spec fn trim_start(text: Seq<char>) -> Seq<char>
    decreases text.len(),
{
    if text.len() > 0 && is_space(text.first()) {
        trim_start(text.drop_first())
    } else {
        text
    }
}

/// `text` without the spaces at its end.
pub open spec fn trim_end(text: Seq<char>) -> Seq<char>
    decreases text.len(),
{
    if text.len() > 0 && is_space(text.last()) {
        trim_end(text.drop_last())
    } else {
        text
    }
}

/// `text` without the spaces at its beginning and at its end.
pub open spec fn trimmed(text: Seq<char>) -> Seq<char> {
    trim_end(trim_start(text))
}

/// Removing the spaces in front of `text` leaves what begins at `from`, where
/// only spaces stand before `from` and none stands there.
pub proof fn lemma_trim_start(text: Seq<char>, from: int)
    requires
        0 <= from <= text.len(),
        forall|k: int| 0 <= k < from ==> is_space(#[trigger] text[k]),
        from == text.len() || !is_space(text[from]),
    ensures
        trim_start(text) == text.subrange(from, text.len() as int),
    decreases from,
{
    if from == 0 {
        assert(text.subrange(0, text.len() as int) =~= text);
    } else {
        let rest = text.drop_first();
        assert forall|k: int| 0 <= k < from - 1 implies is_space(#[trigger] rest[k]) by {
            assert(rest[k] == text[k + 1]);
        }
        lemma_trim_start(rest, from - 1);
        assert(rest.subrange(from - 1, rest.len() as int) =~= text.subrange(
            from,
            text.len() as int,
        ));
    }
}

/// Removing the spaces behind `text` leaves what ends at `to`, where only
/// spaces stand from `to` on and none stands before it.
pub proof fn lemma_trim_end(text: Seq<char>, to: int)
    requires
        0 <= to <= text.len(),
        forall|k: int| to <= k < text.len() ==> is_space(#[trigger] text[k]),
        to == 0 || !is_space(text[to - 1]),
    ensures
        trim_end(text) == text.subrange(0, to),
    decreases text.len() - to,
{
    if to == text.len() {
        assert(text.subrange(0, to) =~= text);
    } else {
        let rest = text.drop_last();
        lemma_trim_end(rest, to);
        assert(rest.subrange(0, to) =~= text.subrange(0, to));
    }
}

/// The word that ends the session.
pub open spec fn stop_word() -> Seq<char> {
    "stop"@
}

/// Whether a line that was read asks to stop: it is the word `stop`, with any
/// white space before and behind it.
pub fn is_stop(line: &str) -> (stop: bool)
    ensures
        stop == (trimmed(line@) == stop_word()),
{
    let n = line.unicode_len();
    let mut from: usize = 0;
    while from < n && is_whitespace(line.get_char(from))
        invariant
            0 <= from <= n,
            n == line@.len(),
            forall|k: int| 0 <= k < from ==> is_space(#[trigger] line@[k]),
        decreases n - from,
    {
        from += 1;
    }
    let mut to: usize = n;
    while to > from && is_whitespace(line.get_char(to - 1))
        invariant
            from <= to <= n,
            n == line@.len(),
            forall|k: int| to <= k < n ==> is_space(#[trigger] line@[k]),
        decreases to - from,
    {
        to -= 1;
    }
    proof {
        lemma_trim_start(line@, from as int);
        let rest = line@.subrange(from as int, n as int);
        assert forall|k: int| to - from <= k < rest.len() implies is_space(#[trigger] rest[k]) by {
            assert(rest[k] == line@[k + from]);
        }
        lemma_trim_end(rest, to - from);
        assert(rest.subrange(0, to - from) =~= line@.subrange(from as int, to as int));
    }
    same_text(line.substring_char(from, to), "stop")
}

} // verus!
