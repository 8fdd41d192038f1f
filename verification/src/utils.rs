//! Trimming of whitespace.

use vstd::prelude::*;
use vstd::string::*;

verus! {

/// True for the characters that have the Unicode property `White_Space`:
/// the blank, the controls from tab to carriage return, next line, the
/// no-break spaces, the spaces of fixed width, and the line and paragraph
/// separators.
pub open spec fn is_whitespace(c: char) -> bool {
    let code = c as u32;
    ||| 0x09 <= code <= 0x0d
    ||| code == 0x20
    ||| code == 0x85
    ||| code == 0xa0
    ||| code == 0x1680
    ||| 0x2000 <= code <= 0x200a
    ||| code == 0x2028
    ||| code == 0x2029
    ||| code == 0x202f
    ||| code == 0x205f
    ||| code == 0x3000
}

/// Calls `char::is_whitespace`, which tells whether a character has the
/// Unicode property `White_Space`. `is_whitespace` lists the characters that
/// have it.
#[verifier::external_body]
fn char_is_whitespace(c: char) -> (white: bool)
    ensures
        white == is_whitespace(c),
{
    c.is_whitespace()
}

/// `text` without the white space at its end.
pub open spec fn trim_end_of(text: Seq<char>) -> Seq<char>
    decreases text.len(),
{
    if text.len() > 0 && is_whitespace(text.last()) {
        trim_end_of(text.drop_last())
    } else {
        text
    }
}

/// `text` without the white space at its start.
pub open spec fn trim_start_of(text: Seq<char>) -> Seq<char>
    decreases text.len(),
{
    if text.len() > 0 && is_whitespace(text.first()) {
        trim_start_of(text.drop_first())
    } else {
        text
    }
}

/// `text` without the white space at either end.
pub open spec fn trim_of(text: Seq<char>) -> Seq<char> {
    trim_start_of(trim_end_of(text))
}

/// Skipping leading white space: where the first `start` characters are all
/// white space and the next one is not, trimming the start removes exactly
/// those.
pub proof fn lemma_trim_start_skips(text: Seq<char>, start: int)
    requires
        0 <= start <= text.len(),
        forall|i: int| 0 <= i < start ==> is_whitespace(text[i]),
        start < text.len() ==> !is_whitespace(text[start]),
    ensures
        trim_start_of(text) == text.skip(start),
    decreases start,
{
    if start == 0 {
        assert(text.skip(0) =~= text);
    } else {
        let rest = text.drop_first();
        assert forall|i: int| 0 <= i < start - 1 implies is_whitespace(rest[i]) by {
            assert(rest[i] == text[i + 1]);
        }
        if start - 1 < rest.len() {
            assert(rest[start - 1] == text[start]);
        }
        lemma_trim_start_skips(rest, start - 1);
        assert(rest.skip(start - 1) =~= text.skip(start));
    }
}

/// Where a trimmed text ends and begins: `end` is one past the last character
/// that is no white space (0 where there is none), and `start` is the first
/// such character (`end` where there is none).
fn trim_bounds(text: &str) -> (bounds: (usize, usize))
    ensures
        bounds.0 <= bounds.1 <= text@.len(),
        trim_end_of(text@) == text@.take(bounds.1 as int),
        trim_of(text@) == text@.subrange(bounds.0 as int, bounds.1 as int),
{
    let total: usize = text.unicode_len();
    let mut start: Option<usize> = None;
    let mut end: usize = 0;
    let mut count: usize = 0;
    for c in it: text.chars()
        invariant
            it.seq() == text@,
            total == text@.len(),
            count == it.index(),
            end <= count,
            trim_end_of(text@.take(it.index())) == text@.take(end as int),
            match start {
                Some(first) => first < end && !is_whitespace(text@[first as int]) && forall|i: int|
                    0 <= i < first ==> is_whitespace(text@[i]),
                None => end == 0 && forall|i: int| 0 <= i < it.index() ==> is_whitespace(text@[i]),
            },
    {
        proof {
            let i = it.index();
            assert(text@.take(i + 1).drop_last() =~= text@.take(i));
            assert(text@.take(i + 1).last() == c);
        }
        if !char_is_whitespace(c) {
            if start.is_none() {
                start = Some(count);
            }
            end = count + 1;
        }
        count = count + 1;
    }
    proof {
        assert(text@.take(text@.len() as int) =~= text@);
        let kept = text@.take(end as int);
        match start {
            Some(first) => {
                assert forall|i: int| 0 <= i < first implies is_whitespace(kept[i]) by {
                    assert(kept[i] == text@[i]);
                }
                assert(kept[first as int] == text@[first as int]);
                lemma_trim_start_skips(kept, first as int);
                assert(kept.skip(first as int) =~= text@.subrange(first as int, end as int));
            },
            None => {
                assert(kept =~= Seq::<char>::empty());
                assert(text@.subrange(0, 0) =~= Seq::<char>::empty());
            },
        }
    }
    match start {
        Some(first) => (first, end),
        None => (end, end),
    }
}

/// A copy of `text` without the white space at its end.
pub fn trim_end(text: &str) -> (trimmed: String)
    ensures
        trimmed@ == trim_end_of(text@),
{
    let bounds = trim_bounds(text);
    String::from_str(text.substring_char(0, bounds.1))
}

/// A copy of `text` without the white space at either end.
pub fn trim(text: &str) -> (trimmed: String)
    ensures
        trimmed@ == trim_of(text@),
{
    let bounds = trim_bounds(text);
    String::from_str(text.substring_char(bounds.0, bounds.1))
}

/// What is left of a rendered line to print at the end of a reply: the line
/// without the white space at its end, or nothing where that is empty.
pub fn visible_text(rendered: &str) -> (visible: Option<String>)
    ensures
        match visible {
            Some(text) => text@ == trim_end_of(rendered@) && text@.len() > 0,
            None => trim_end_of(rendered@).len() == 0,
        },
{
    let bounds = trim_bounds(rendered);
    if bounds.1 == 0 {
        None
    } else {
        Some(String::from_str(rendered.substring_char(0, bounds.1)))
    }
}

} // verus!
