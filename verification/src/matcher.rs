//! The matcher: which lines of a text hold a query.
//!
//! `search` reads the lines one after the other and keeps those that contain
//! the query. `search_case_insensitive` needs the lowercase form of every
//! line: it computes them all, then leaves the choice to `select`, which
//! takes them as an argument.

use crate::filter::lemma_filter_unfolds_at_front;
use crate::laws::{lemma_empty_content_matches_nothing, lemma_empty_query_matches_every_line};
use crate::strings::{
    fold_lines, has_substring, line_cursor, lines_left, lowercase, lowercase_of, next_line,
    split_lines,
};
use crate::text::{lines_of, occurs_in};
use vstd::prelude::*;

verus! {

/// The test that `search` puts to a line: does it hold `query` as written?
pub open spec fn holds(query: Seq<char>) -> spec_fn(Seq<char>) -> bool {
    |line: Seq<char>| occurs_in(query, line)
}

/// The test that `search_case_insensitive` puts to a line: does its lowercase
/// form hold `folded_query`?
pub open spec fn holds_folded(folded_query: Seq<char>) -> spec_fn(Seq<char>) -> bool {
    |line: Seq<char>| occurs_in(folded_query, lowercase_of(line))
}

/// What `search` returns: the lines of `content` that hold `query`, in the
/// order of `content`.
pub open spec fn matching_lines(query: Seq<char>, content: Seq<char>) -> Seq<Seq<char>> {
    lines_of(content).filter(holds(query))
}

/// What `search_case_insensitive` returns: the lines of `content`, as they
/// are written there, whose lowercase form holds the lowercase form of
/// `query`.
pub open spec fn matching_lines_folded(query: Seq<char>, content: Seq<char>) -> Seq<Seq<char>> {
    lines_of(content).filter(holds_folded(lowercase_of(query)))
}

/// What `select` returns: `lines[i]` for each `i` at which `keys[i]` holds
/// `needle`, in rising order of `i`. A line without a key is left out.
pub open spec fn picked(
    lines: Seq<Seq<char>>,
    keys: Seq<Seq<char>>,
    needle: Seq<char>,
) -> Seq<Seq<char>>
    decreases lines.len(),
{
    if lines.len() == 0 || keys.len() == 0 {
        Seq::empty()
    } else if occurs_in(needle, keys.first()) {
        seq![lines.first()] + picked(lines.drop_first(), keys.drop_first(), needle)
    } else {
        picked(lines.drop_first(), keys.drop_first(), needle)
    }
}

/// Picking lines by their own lowercase forms is filtering them with
/// `holds_folded`.
pub proof fn lemma_picked_by_lowercase(lines: Seq<Seq<char>>, folded_query: Seq<char>)
    ensures
        picked(lines, lines.map_values(|line: Seq<char>| lowercase_of(line)), folded_query)
            == lines.filter(holds_folded(folded_query)),
    decreases lines.len(),
{
    let fold = |line: Seq<char>| lowercase_of(line);
    if lines.len() == 0 {
        reveal_with_fuel(Seq::filter, 1);
    } else {
        lemma_picked_by_lowercase(lines.drop_first(), folded_query);
        lemma_filter_unfolds_at_front(lines, holds_folded(folded_query));
        assert(lines.map_values(fold).drop_first() == lines.drop_first().map_values(fold));
    }
}

/// Returns the lines of `content` that contain `query`, in the order in which
/// they stand in `content`. The empty query is contained in every line.
pub fn search<'a>(query: &str, content: &'a str) -> (found: Vec<&'a str>)
    ensures
        found.deep_view() == matching_lines(query@, content@),
        query@.len() == 0 ==> found.deep_view() == lines_of(content@),
        content@.len() == 0 ==> found.len() == 0,
{
    let ghost keep = holds(query@);
    let mut cursor = line_cursor(content);
    let mut found: Vec<&'a str> = Vec::new();
    assert(found.deep_view() == Seq::<Seq<char>>::empty());
    loop
        invariant_except_break
            found.deep_view() + lines_left(cursor).filter(keep) == lines_of(content@).filter(keep),
        invariant
            keep == holds(query@),
        ensures
            found.deep_view() == lines_of(content@).filter(keep),
        decreases lines_left(cursor).len(),
    {
        let ghost before = found.deep_view();
        let ghost left = lines_left(cursor);
        match next_line(&mut cursor) {
            Some(line) => {
                proof {
                    lemma_filter_unfolds_at_front(left, keep);
                }
                if has_substring(line, query) {
                    found.push(line);
                    assert(found.deep_view() == before.push(left.first()));
                    assert(before.push(left.first()) + left.drop_first().filter(keep) == before
                        + left.filter(keep));
                }
            },
            None => {
                assert(left.filter(keep) == Seq::<Seq<char>>::empty()) by {
                    reveal_with_fuel(Seq::filter, 1);
                }
                break ;
            },
        }
    }
    proof {
        if query@.len() == 0 {
            lemma_empty_query_matches_every_line(query@, content@);
        }
        if content@.len() == 0 {
            lemma_empty_content_matches_nothing(query@, content@);
        }
    }
    found
}

/// Returns `lines[i]` for each `i` at which `keys[i]` contains `needle`, in
/// rising order of `i`. Where the two vectors differ in length, what the
/// longer one has beyond the shorter is not looked at.
pub fn select<'a>(lines: &Vec<&'a str>, keys: &Vec<String>, needle: &str) -> (kept: Vec<&'a str>)
    ensures
        kept.deep_view() == picked(lines.deep_view(), keys.deep_view(), needle@),
{
    let mut kept: Vec<&'a str> = Vec::new();
    let mut i: usize = 0;
    proof {
        assert(kept.deep_view() == Seq::<Seq<char>>::empty());
        assert(lines.deep_view().skip(0) == lines.deep_view());
        assert(keys.deep_view().skip(0) == keys.deep_view());
    }
    while i < lines.len() && i < keys.len()
        invariant
            i <= lines.len(),
            i <= keys.len(),
            kept.deep_view() + picked(
                lines.deep_view().skip(i as int),
                keys.deep_view().skip(i as int),
                needle@,
            ) == picked(lines.deep_view(), keys.deep_view(), needle@),
        decreases lines.len() - i,
    {
        let ghost before = kept.deep_view();
        let ghost lines_here = lines.deep_view().skip(i as int);
        let ghost keys_here = keys.deep_view().skip(i as int);
        let ghost later = picked(lines_here.drop_first(), keys_here.drop_first(), needle@);
        proof {
            assert(lines_here.drop_first() == lines.deep_view().skip(i + 1));
            assert(keys_here.drop_first() == keys.deep_view().skip(i + 1));
        }
        if has_substring(keys[i].as_str(), needle) {
            kept.push(lines[i]);
            assert(kept.deep_view() == before.push(lines_here.first()));
            assert(before.push(lines_here.first()) + later == before + (seq![lines_here.first()]
                + later));
        }
        i += 1;
    }
    proof {
        let rest = picked(lines.deep_view().skip(i as int), keys.deep_view().skip(i as int), needle@);
        assert(rest == Seq::<Seq<char>>::empty());
        assert(kept.deep_view() + rest == kept.deep_view());
    }
    kept
}

/// Returns the lines of `content` that contain `query` when the case of
/// letters is left out of account: a line is returned, as it is written in
/// `content`, if its lowercase form contains the lowercase form of `query`.
pub fn search_case_insensitive<'a>(query: &str, content: &'a str) -> (found: Vec<&'a str>)
    ensures
        found.deep_view() == matching_lines_folded(query@, content@),
        content@.len() == 0 ==> found.len() == 0,
{
    let needle = lowercase(query);
    let lines = split_lines(content);
    let keys = fold_lines(&lines);
    proof {
        lemma_picked_by_lowercase(lines.deep_view(), needle@);
        if content@.len() == 0 {
            lemma_empty_content_matches_nothing(query@, content@);
        }
    }
    select(&lines, &keys, needle.as_str())
}

} // verus!
