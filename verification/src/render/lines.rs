//! Splitting streamed text into committed lines and a trailing line.
//!
//! Text that is followed by a newline is complete and can be committed. What
//! comes after the last newline is the trailing line: it may still grow.

use vstd::prelude::*;
use vstd::string::*;

verus! {

/// Position of the last newline in `text`, or -1 when it has none.
pub open spec fn last_newline(text: Seq<char>) -> int
    decreases text.len(),
{
    if text.len() == 0 {
        -1
    } else if text.last() == '\n' {
        text.len() - 1
    } else {
        last_newline(text.drop_last())
    }
}

/// The text before the last newline: the completed lines, joined by newlines.
/// Meaningful when `text` holds a newline.
pub open spec fn committed_text(text: Seq<char>) -> Seq<char> {
    text.take(last_newline(text))
}

/// The text after the last newline; all of `text` when it holds none.
pub open spec fn trailing_text(text: Seq<char>) -> Seq<char> {
    text.skip(last_newline(text) + 1)
}

/// The pieces that the newlines of `text` separate, in order. There is always
/// at least one piece, and a text that ends in a newline ends in an empty piece.
pub open spec fn lines_of(text: Seq<char>) -> Seq<Seq<char>>
    decreases text.len(),
{
    if text.len() == 0 {
        seq![Seq::<char>::empty()]
    } else {
        let before = lines_of(text.drop_last());
        if text.last() == '\n' {
            before.push(Seq::<char>::empty())
        } else {
            before.drop_last().push(before.last().push(text.last()))
        }
    }
}

/// The pieces put together again, with one newline between neighbours.
pub open spec fn join_lines(lines: Seq<Seq<char>>) -> Seq<char>
    decreases lines.len(),
{
    if lines.len() == 0 {
        Seq::<char>::empty()
    } else if lines.len() == 1 {
        lines[0]
    } else {
        join_lines(lines.drop_last()).push('\n') + lines.last()
    }
}

/// All fragments written one after the other.
pub open spec fn concat_fragments(fragments: Seq<Seq<char>>) -> Seq<char>
    decreases fragments.len(),
{
    if fragments.len() == 0 {
        Seq::<char>::empty()
    } else {
        concat_fragments(fragments.drop_last()) + fragments.last()
    }
}

/// What `last_newline` finds: the position it gives holds a newline and no
/// later position does; -1 means that there is no newline at all.
pub proof fn lemma_last_newline(text: Seq<char>)
    ensures
        -1 <= last_newline(text) < text.len(),
        last_newline(text) >= 0 ==> text[last_newline(text)] == '\n',
        forall|i: int| last_newline(text) < i < text.len() ==> text[i] != '\n',
        last_newline(text) >= 0 <==> text.contains('\n'),
    decreases text.len(),
{
    if text.len() == 0 {
    } else if text.last() == '\n' {
        assert(text[text.len() - 1] == '\n');
    } else {
        let front = text.drop_last();
        lemma_last_newline(front);
        let k = last_newline(front);
        assert forall|i: int| k < i < text.len() implies text[i] != '\n' by {
            if i < front.len() {
                assert(front[i] == text[i]);
            }
        }
        if k >= 0 {
            assert(front[k] == text[k]);
        }
        if text.contains('\n') {
            let j = choose|j: int| 0 <= j < text.len() && text[j] == '\n';
            assert(j <= k);
        }
    }
}

/// Splitting loses nothing: the committed text, a newline and the trailing
/// text make up the whole, and the trailing text is free of newlines.
pub proof fn lemma_split_rejoins(text: Seq<char>)
    ensures
        !trailing_text(text).contains('\n'),
        last_newline(text) >= 0 ==> committed_text(text).push('\n') + trailing_text(text) == text,
        last_newline(text) < 0 ==> trailing_text(text) == text,
{
    lemma_last_newline(text);
    let k = last_newline(text);
    let tail = trailing_text(text);
    if tail.contains('\n') {
        let j = choose|j: int| 0 <= j < tail.len() && tail[j] == '\n';
        assert(text[k + 1 + j] == '\n');
    }
    if k >= 0 {
        assert(committed_text(text).push('\n') + tail =~= text);
    } else {
        assert(tail =~= text);
    }
}

/// Where the last newline of a concatenation lies.
pub proof fn lemma_last_newline_concat(head: Seq<char>, tail: Seq<char>)
    ensures
        last_newline(head + tail) == if last_newline(tail) >= 0 {
            head.len() + last_newline(tail)
        } else {
            last_newline(head)
        },
    decreases tail.len(),
{
    let whole = head + tail;
    if tail.len() == 0 {
        assert(whole =~= head);
    } else {
        assert(whole.last() == tail.last());
        assert(whole.drop_last() =~= head + tail.drop_last());
        if tail.last() != '\n' {
            lemma_last_newline_concat(head, tail.drop_last());
        }
    }
}

/// The trailing line does not depend on how the text was cut into fragments:
/// keeping only the trailing line before adding more text gives the same
/// trailing line as keeping everything.
pub proof fn lemma_trailing_of_concat(head: Seq<char>, tail: Seq<char>)
    ensures
        trailing_text(trailing_text(head) + tail) == trailing_text(head + tail),
{
    lemma_last_newline(head);
    lemma_last_newline(tail);
    lemma_last_newline_concat(head, tail);
    lemma_last_newline_concat(trailing_text(head), tail);
    lemma_split_rejoins(head);
    lemma_last_newline(trailing_text(head));
    assert(trailing_text(trailing_text(head) + tail) =~= trailing_text(head + tail));
}

/// The pieces are never none, and joining them gives the text back.
pub proof fn lemma_join_lines_of(text: Seq<char>)
    ensures
        lines_of(text).len() >= 1,
        join_lines(lines_of(text)) == text,
    decreases text.len(),
{
    if text.len() == 0 {
    } else {
        let front = text.drop_last();
        let before = lines_of(front);
        lemma_join_lines_of(front);
        if text.last() == '\n' {
            let after = before.push(Seq::<char>::empty());
            assert(after.drop_last() =~= before);
            assert(join_lines(after) =~= front.push('\n'));
            assert(front.push('\n') =~= text);
        } else {
            let grown = before.last().push(text.last());
            let after = before.drop_last().push(grown);
            if before.len() == 1 {
                assert(join_lines(after) =~= front.push(text.last()));
            } else {
                assert(after.drop_last() =~= before.drop_last());
                assert(join_lines(after) =~= join_lines(before).push(text.last()));
            }
            assert(front.push(text.last()) =~= text);
        }
    }
}

/// No piece holds a newline.
pub proof fn lemma_lines_have_no_newline(text: Seq<char>)
    ensures
        forall|i: int| 0 <= i < lines_of(text).len() ==> !(#[trigger] lines_of(text)[i]).contains('\n'),
    decreases text.len(),
{
    let lines = lines_of(text);
    if text.len() == 0 {
        assert forall|i: int| 0 <= i < lines.len() implies !(#[trigger] lines[i]).contains('\n') by {
            assert(lines[i] =~= Seq::<char>::empty());
        }
    } else {
        let front = text.drop_last();
        let before = lines_of(front);
        lemma_lines_have_no_newline(front);
        lemma_join_lines_of(front);
        assert forall|i: int| 0 <= i < lines.len() implies !(#[trigger] lines[i]).contains('\n') by {
            if i < before.len() - 1 {
                assert(lines[i] == before[i]);
            } else if text.last() == '\n' {
                if i == before.len() - 1 {
                    assert(lines[i] == before[i]);
                }
            } else {
                let last = before.last();
                assert(!last.contains('\n'));
                if lines[i].contains('\n') {
                    let j = choose|j: int| 0 <= j < lines[i].len() && lines[i][j] == '\n';
                    assert(j < last.len());
                    assert(last[j] == '\n');
                }
            }
        }
    }
}

/// The two descriptions agree: the last piece is the trailing text, and the
/// pieces before it are those of the committed text.
pub proof fn lemma_lines_split(text: Seq<char>)
    ensures
        lines_of(text).last() == trailing_text(text),
        last_newline(text) >= 0 ==> lines_of(text).drop_last() == lines_of(committed_text(text)),
        last_newline(text) >= 0 ==> join_lines(lines_of(text).drop_last()) == committed_text(text),
        last_newline(text) < 0 ==> lines_of(text) == seq![text],
    decreases text.len(),
{
    lemma_last_newline(text);
    if text.len() == 0 {
        assert(trailing_text(text) =~= Seq::<char>::empty());
        assert(text =~= Seq::<char>::empty());
    } else {
        let front = text.drop_last();
        let before = lines_of(front);
        lemma_lines_split(front);
        lemma_join_lines_of(front);
        lemma_last_newline(front);
        if text.last() == '\n' {
            assert(trailing_text(text) =~= Seq::<char>::empty());
            assert(committed_text(text) =~= front);
            assert(lines_of(text).drop_last() =~= before);
        } else {
            assert(trailing_text(text) =~= trailing_text(front).push(text.last()));
            if last_newline(text) >= 0 {
                assert(committed_text(text) =~= committed_text(front));
                assert(lines_of(text).drop_last() =~= before.drop_last());
            } else {
                assert(front.push(text.last()) =~= text);
                assert(lines_of(text) =~= seq![text]);
            }
        }
        if last_newline(text) >= 0 {
            lemma_join_lines_of(committed_text(text));
        }
    }
}

/// Finds the last newline of `text`, counted in characters.
pub fn find_last_newline(text: &str) -> (found: Option<usize>)
    ensures
        match found {
            Some(k) => k == last_newline(text@),
            None => last_newline(text@) == -1,
        },
{
    let total: usize = text.unicode_len();
    let mut found: Option<usize> = None;
    let mut count: usize = 0;
    for c in it: text.chars()
        invariant
            it.seq() == text@,
            total == text@.len(),
            count == it.index(),
            match found {
                Some(k) => k == last_newline(text@.take(it.index())),
                None => last_newline(text@.take(it.index())) == -1,
            },
    {
        proof {
            let i = it.index();
            assert(text@.take(i + 1).drop_last() =~= text@.take(i));
            assert(text@.take(i + 1).last() == c);
        }
        if c == '\n' {
            found = Some(count);
        }
        count = count + 1;
    }
    assert(text@.take(text@.len() as int) =~= text@);
    found
}

/// True when `text` holds a newline.
pub fn has_newline(text: &str) -> (found: bool)
    ensures
        found == text@.contains('\n'),
{
    proof {
        lemma_last_newline(text@);
    }
    find_last_newline(text).is_some()
}

/// True when the last character of `text` is a newline.
pub fn ends_with_newline(text: &str) -> (ends: bool)
    ensures
        ends == (text@.len() > 0 && text@.last() == '\n'),
{
    proof {
        lemma_last_newline(text@);
    }
    let total: usize = text.unicode_len();
    match find_last_newline(text) {
        Some(k) => k + 1 == total,
        None => false,
    }
}

/// Cuts `text` at its last newline. The first part is the committed text, if
/// there is a newline at all; the second is the trailing text.
pub fn split_trailing(text: &str) -> (parts: (Option<String>, String))
    ensures
        parts.1@ == trailing_text(text@),
        match parts.0 {
            Some(committed) => last_newline(text@) >= 0 && committed@ == committed_text(text@),
            None => last_newline(text@) < 0,
        },
{
    proof {
        lemma_last_newline(text@);
    }
    let total: usize = text.unicode_len();
    match find_last_newline(text) {
        Some(k) => {
            let committed = String::from_str(text.substring_char(0, k));
            let trailing = String::from_str(text.substring_char(k + 1, total));
            (Some(committed), trailing)
        },
        None => {
            assert(trailing_text(text@) =~= text@);
            (None, String::from_str(text))
        },
    }
}

/// Splits `text` at every newline.
pub fn split_lines(text: &str) -> (lines: Vec<String>)
    ensures
        lines@.len() == lines_of(text@).len(),
        forall|i: int| 0 <= i < lines@.len() ==> (#[trigger] lines@[i])@ == lines_of(text@)[i],
{
    let total: usize = text.unicode_len();
    let mut lines: Vec<String> = Vec::new();
    let mut start: usize = 0;
    let mut count: usize = 0;
    for c in it: text.chars()
        invariant
            it.seq() == text@,
            total == text@.len(),
            count == it.index(),
            start <= count,
            lines@.len() + 1 == lines_of(text@.take(it.index())).len(),
            forall|i: int| 0 <= i < lines@.len() ==> (#[trigger] lines@[i])@ == lines_of(text@.take(it.index()))[i],
            lines_of(text@.take(it.index())).last() == text@.subrange(start as int, count as int),
    {
        proof {
            let i = it.index();
            assert(text@.take(i + 1).drop_last() =~= text@.take(i));
            assert(text@.take(i + 1).last() == c);
        }
        if c == '\n' {
            lines.push(String::from_str(text.substring_char(start, count)));
            start = count + 1;
            assert(text@.subrange(start as int, count + 1) =~= Seq::<char>::empty());
        } else {
            assert(text@.subrange(start as int, count + 1) =~= text@.subrange(
                start as int,
                count as int,
            ).push(c));
        }
        count = count + 1;
    }
    assert(text@.take(text@.len() as int) =~= text@);
    lines.push(String::from_str(text.substring_char(start, total)));
    lines
}

} // verus!
