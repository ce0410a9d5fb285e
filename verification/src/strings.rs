//! The string routines of `std` that the searches are built on.
//!
//! Verus does not look inside `str::lines`, `str::contains` and
//! `str::to_lowercase`. Each is called in one place, a small function marked
//! `external_body`, and what that function's contract says of the call is
//! taken on trust. `split_lines` and `fold_lines`, at the end of the file,
//! are verified against those contracts.

use crate::text::{lines_of, occurs_in};
use std::str::Lines;
use vstd::prelude::*;

verus! {

/// The lowercase form of `text` as `str::to_lowercase` computes it. It follows
/// the Unicode character tables and the rule for the Greek final sigma, which
/// are not written out here: all that is known of it is that it depends on
/// `text` alone.
pub uninterp spec fn lowercase_of(text: Seq<char>) -> Seq<char>;

/// `std::str::Lines`, the iterator that `str::lines` returns. Nothing inside
/// it is visible to the verifier; `lines_left` stands for what it holds.
#[verifier::external_type_specification]
#[verifier::external_body]
pub struct ExLines<'a>(Lines<'a>);

/// The lines that a `std::str::Lines` has yet to hand out, first one first.
pub uninterp spec fn lines_left(cursor: Lines<'_>) -> Seq<Seq<char>>;

/// Trusted: `str::lines`. The iterator it returns will hand out the lines of
/// `text` as `lines_of` lists them: cut after each `\n`, with that `\n` and
/// one `\r` before it removed, and no empty line after a final `\n`.
#[verifier::external_body]
pub(crate) fn line_cursor<'a>(text: &'a str) -> (cursor: Lines<'a>)
    ensures
        lines_left(cursor) == lines_of(text@),
{
    text.lines()
}

/// Trusted: `Iterator::next` of `std::str::Lines`. It hands out the first
/// line that is left and keeps the others, or returns `None` when none is
/// left.
#[verifier::external_body]
pub(crate) fn next_line<'a>(cursor: &mut Lines<'a>) -> (line: Option<&'a str>)
    ensures
        line is Some <==> lines_left(*old(cursor)).len() > 0,
        line matches Some(first) ==> first@ == lines_left(*old(cursor)).first(),
        line is Some ==> lines_left(*final(cursor)) == lines_left(*old(cursor)).drop_first(),
{
    cursor.next()
}

/// Trusted: `str::contains` with a string as the pattern. It tells whether
/// `needle` is a sub-slice of `hay`.
#[verifier::external_body]
pub(crate) fn has_substring(hay: &str, needle: &str) -> (found: bool)
    ensures
        found == occurs_in(needle@, hay@),
{
    hay.contains(needle)
}

/// Trusted: `str::to_lowercase`. The new string is the lowercase form of
/// `text`; nothing more is claimed of it.
#[verifier::external_body]
pub(crate) fn lowercase(text: &str) -> (folded: String)
    ensures
        folded@ == lowercase_of(text@),
{
    text.to_lowercase()
}

/// Returns the lines of `content`, in order, each a slice of `content`.
pub fn split_lines<'a>(content: &'a str) -> (lines: Vec<&'a str>)
    ensures
        lines.deep_view() == lines_of(content@),
{
    let mut cursor = line_cursor(content);
    let mut lines: Vec<&'a str> = Vec::new();
    assert(lines.deep_view() == Seq::<Seq<char>>::empty());
    loop
        invariant_except_break
            lines.deep_view() + lines_left(cursor) == lines_of(content@),
        ensures
            lines.deep_view() == lines_of(content@),
        decreases lines_left(cursor).len(),
    {
        let ghost before = lines.deep_view();
        let ghost left = lines_left(cursor);
        match next_line(&mut cursor) {
            Some(line) => {
                lines.push(line);
                assert(lines.deep_view() == before.push(left.first()));
                assert(before.push(left.first()) + left.drop_first() == before + left);
            },
            None => {
                assert(before + left == before);
                break ;
            },
        }
    }
    lines
}

/// Returns the lowercase form of each line, in the order of `lines`.
pub fn fold_lines(lines: &Vec<&str>) -> (folded: Vec<String>)
    ensures
        folded.deep_view() == lines.deep_view().map_values(|line: Seq<char>| lowercase_of(line)),
{
    let mut folded: Vec<String> = Vec::new();
    let mut i: usize = 0;
    while i < lines.len()
        invariant
            i <= lines.len(),
            folded.deep_view() == lines.deep_view().take(i as int).map_values(
                |line: Seq<char>| lowercase_of(line),
            ),
        decreases lines.len() - i,
    {
        let ghost before = folded.deep_view();
        let key = lowercase(lines[i]);
        folded.push(key);
        assert(folded.deep_view() == before.push(lowercase_of(lines[i as int]@)));
        i += 1;
    }
    assert(lines.deep_view().take(i as int) == lines.deep_view());
    folded
}

} // verus!
