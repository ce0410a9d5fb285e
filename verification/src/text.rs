//! The model of a text: a sequence of characters, the lines it is made of,
//! and what it means for one run of characters to occur inside another.
//!
//! Everything here is mathematics over `Seq<char>`; the contracts of the
//! executable functions are stated in these terms.

use vstd::prelude::*;

verus! {

/// `needle` stands in `hay` at offset `at`, character for character.
pub open spec fn occurs_at(needle: Seq<char>, hay: Seq<char>, at: int) -> bool {
    &&& 0 <= at
    &&& at + needle.len() <= hay.len()
    &&& hay.subrange(at, at + needle.len()) == needle
}

/// `needle` is a contiguous run of characters of `hay`.
pub open spec fn occurs_in(needle: Seq<char>, hay: Seq<char>) -> bool {
    exists|at: int| occurs_at(needle, hay, at)
}

/// Offset of the first line feed in `text`, or `text.len()` where it has none.
pub open spec fn first_break(text: Seq<char>) -> nat
    decreases text.len(),
{
    if text.len() == 0 || text[0] == '\n' {
        0
    } else {
        1 + first_break(text.drop_first())
    }
}

/// `line` without the carriage return that it may end in.
pub open spec fn without_cr(line: Seq<char>) -> Seq<char> {
    if line.len() > 0 && line.last() == '\r' {
        line.drop_last()
    } else {
        line
    }
}

/// The lines of `text`, in order.
///
/// A line ends at a line feed; the line feed, and one carriage return right
/// before it, belong to no line. What follows the last line feed is a line of
/// its own unless it is empty, and it is taken as it stands. The empty text
/// has no lines.
pub open spec fn lines_of(text: Seq<char>) -> Seq<Seq<char>>
    decreases text.len(),
{
    let end = first_break(text) as int;
    if text.len() == 0 {
        Seq::empty()
    } else if end >= text.len() {
        seq![text]
    } else {
        seq![without_cr(text.take(end))] + lines_of(text.skip(end + 1))
    }
}

/// The empty run of characters occurs in every text.
pub proof fn lemma_nothing_occurs_everywhere(needle: Seq<char>, hay: Seq<char>)
    requires
        needle.len() == 0,
    ensures
        occurs_in(needle, hay),
{
    assert(hay.subrange(0, 0) == needle);
    assert(occurs_at(needle, hay, 0));
}

/// What is longer than a text does not occur in it.
pub proof fn lemma_longer_does_not_occur(needle: Seq<char>, hay: Seq<char>)
    requires
        needle.len() > hay.len(),
    ensures
        !occurs_in(needle, hay),
{
}

/// `first_break` stops at the first line feed: there is none before the
/// offset it gives, and there is one at that offset unless it is the end of
/// the text.
pub proof fn lemma_first_break_is_first(text: Seq<char>)
    ensures
        first_break(text) <= text.len(),
        forall|j: int| 0 <= j < first_break(text) ==> text[j] != '\n',
        first_break(text) < text.len() ==> text[first_break(text) as int] == '\n',
    decreases text.len(),
{
    if text.len() > 0 && text[0] != '\n' {
        let rest = text.drop_first();
        lemma_first_break_is_first(rest);
        assert forall|j: int| 0 <= j < first_break(text) implies text[j] != '\n' by {
            if j > 0 {
                assert(text[j] == rest[j - 1]);
            }
        }
    }
}

/// A line is cut out of its text and not made up: every line of a text is a
/// contiguous run of characters of that text, and holds no line feed.
pub proof fn lemma_lines_are_cut_from_the_text(text: Seq<char>)
    ensures
        forall|i: int|
            0 <= i < lines_of(text).len() ==> occurs_in(#[trigger] lines_of(text)[i], text)
                && !lines_of(text)[i].contains('\n'),
    decreases text.len(),
{
    lemma_first_break_is_first(text);
    let end = first_break(text) as int;
    if text.len() == 0 {
    } else if end >= text.len() {
        assert(text.subrange(0, text.len() as int) == text);
        assert(occurs_at(text, text, 0));
    } else {
        let head = without_cr(text.take(end));
        let rest = text.skip(end + 1);
        let tail = lines_of(rest);
        lemma_lines_are_cut_from_the_text(rest);
        assert forall|i: int| 0 <= i < lines_of(text).len() implies occurs_in(
            #[trigger] lines_of(text)[i],
            text,
        ) && !lines_of(text)[i].contains('\n') by {
            if i == 0 {
                assert(lines_of(text)[0] == head);
                assert(text.subrange(0, head.len() as int) == head);
                assert(occurs_at(head, text, 0));
                assert forall|j: int| 0 <= j < head.len() implies head[j] != '\n' by {
                    assert(head[j] == text[j]);
                }
            } else {
                let line = tail[i - 1];
                assert(lines_of(text)[i] == line);
                let at = choose|at: int| occurs_at(line, rest, at);
                assert(text.subrange(end + 1 + at, end + 1 + at + line.len()) == rest.subrange(
                    at,
                    at + line.len(),
                ));
                assert(occurs_at(line, text, end + 1 + at));
            }
        }
    }
}

} // verus!
