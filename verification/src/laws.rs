//! What holds of every search, proved over the models in which the contracts
//! of `search` and `search_case_insensitive` are stated.

use crate::filter::{
    lemma_filter_keeps_all, lemma_filter_keeps_none, lemma_filter_keeps_order,
    lemma_wider_filter_keeps_more, stands_in_order,
};
use crate::matcher::{holds, holds_folded, matching_lines, matching_lines_folded};
use crate::strings::lowercase_of;
use crate::text::{
    lemma_longer_does_not_occur, lemma_nothing_occurs_everywhere, lines_of, occurs_in,
};
use vstd::prelude::*;

verus! {

/// Every line that `search` returns is a line of the content and contains the
/// query as written; the lines come in the order of the content, each line of
/// the content at most once; and no line that contains the query is missing.
/// `at` gives, for each line returned, its place among the lines of the
/// content.
pub proof fn lemma_search_returns_matching_lines_in_order(
    query: Seq<char>,
    content: Seq<char>,
) -> (at: Seq<int>)
    ensures
        stands_in_order(matching_lines(query, content), lines_of(content), at),
        forall|k: int|
            0 <= k < matching_lines(query, content).len() ==> occurs_in(
                query,
                #[trigger] matching_lines(query, content)[k],
            ),
        forall|i: int|
            0 <= i < lines_of(content).len() && occurs_in(query, #[trigger] lines_of(content)[i])
                ==> at.contains(i),
{
    let lines = lines_of(content);
    let keep = holds(query);
    let at = lemma_filter_keeps_order(lines, keep);
    assert forall|k: int| 0 <= k < matching_lines(query, content).len() implies occurs_in(
        query,
        #[trigger] matching_lines(query, content)[k],
    ) by {
        assert(keep(lines[at[k]]));
    }
    assert forall|i: int|
        0 <= i < lines.len() && occurs_in(query, #[trigger] lines[i]) implies at.contains(i) by {
        assert(keep(lines[i]));
    }
    at
}

/// Every line that `search_case_insensitive` returns is a line of the
/// content, letter for letter as it is written there, and its lowercase form
/// contains the lowercase form of the query; the lines come in the order of
/// the content, each line of the content at most once; and no such line is
/// missing. `at` gives, for each line returned, its place among the lines of
/// the content.
pub proof fn lemma_folded_search_returns_matching_lines_in_order(
    query: Seq<char>,
    content: Seq<char>,
) -> (at: Seq<int>)
    ensures
        stands_in_order(matching_lines_folded(query, content), lines_of(content), at),
        forall|k: int|
            0 <= k < matching_lines_folded(query, content).len() ==> occurs_in(
                lowercase_of(query),
                lowercase_of(#[trigger] matching_lines_folded(query, content)[k]),
            ),
        forall|i: int|
            0 <= i < lines_of(content).len() && occurs_in(
                lowercase_of(query),
                lowercase_of(#[trigger] lines_of(content)[i]),
            ) ==> at.contains(i),
{
    let lines = lines_of(content);
    let keep = holds_folded(lowercase_of(query));
    let at = lemma_filter_keeps_order(lines, keep);
    assert forall|k: int| 0 <= k < matching_lines_folded(query, content).len() implies occurs_in(
        lowercase_of(query),
        lowercase_of(#[trigger] matching_lines_folded(query, content)[k]),
    ) by {
        assert(keep(lines[at[k]]));
    }
    assert forall|i: int|
        0 <= i < lines.len() && occurs_in(
            lowercase_of(query),
            lowercase_of(#[trigger] lines[i]),
        ) implies at.contains(i) by {
        assert(keep(lines[i]));
    }
    at
}

/// The empty query is contained in every line, so a search for it returns
/// all the lines of the content.
pub proof fn lemma_empty_query_matches_every_line(query: Seq<char>, content: Seq<char>)
    requires
        query.len() == 0,
    ensures
        matching_lines(query, content) == lines_of(content),
{
    let lines = lines_of(content);
    assert forall|i: int| 0 <= i < lines.len() implies holds(query)(#[trigger] lines[i]) by {
        lemma_nothing_occurs_everywhere(query, lines[i]);
    }
    lemma_filter_keeps_all(lines, holds(query));
}

/// A content without characters has no lines, so no search returns anything
/// from it, whatever the query.
pub proof fn lemma_empty_content_matches_nothing(query: Seq<char>, content: Seq<char>)
    requires
        content.len() == 0,
    ensures
        matching_lines(query, content).len() == 0,
        matching_lines_folded(query, content).len() == 0,
{
    lemma_filter_keeps_none(lines_of(content), holds(query));
    lemma_filter_keeps_none(lines_of(content), holds_folded(lowercase_of(query)));
}

/// A query that is longer than every line of the content is contained in
/// none of them, so a search for it returns nothing.
pub proof fn lemma_long_query_matches_nothing(query: Seq<char>, content: Seq<char>)
    requires
        forall|i: int|
            0 <= i < lines_of(content).len() ==> (#[trigger] lines_of(content)[i]).len()
                < query.len(),
    ensures
        matching_lines(query, content).len() == 0,
{
    let lines = lines_of(content);
    assert forall|i: int| 0 <= i < lines.len() implies !holds(query)(#[trigger] lines[i]) by {
        lemma_longer_does_not_occur(query, lines[i]);
    }
    lemma_filter_keeps_none(lines, holds(query));
}

/// A search is a function of its query and its content: two results that
/// each meet the contract of `search` for the same query and content are the
/// same lines.
pub proof fn lemma_search_is_repeatable(
    query: Seq<char>,
    content: Seq<char>,
    first: Seq<Seq<char>>,
    second: Seq<Seq<char>>,
)
    requires
        first == matching_lines(query, content),
        second == matching_lines(query, content),
    ensures
        first == second,
{
}

/// The same of `search_case_insensitive`: two results that each meet its
/// contract for the same query and content are the same lines.
pub proof fn lemma_folded_search_is_repeatable(
    query: Seq<char>,
    content: Seq<char>,
    first: Seq<Seq<char>>,
    second: Seq<Seq<char>>,
)
    requires
        first == matching_lines_folded(query, content),
        second == matching_lines_folded(query, content),
    ensures
        first == second,
{
}

/// Where lowercasing keeps each occurrence of the query in a line of the
/// content, the search that ignores case returns at least what the exact
/// search returns: the lines of the exact search stand in order among those
/// of the other, and are no more in number. `at` gives, for each line of the
/// exact search, its place in the result of the other.
///
/// The condition is needed because the lowercase form of a letter can depend
/// on its neighbours: a Greek capital sigma becomes a final sigma at the end
/// of a word and a medial one elsewhere, so a query that ends in the middle
/// of a word may no longer occur in that word once both are lowercased.
pub proof fn lemma_folded_search_returns_at_least_the_exact_matches(
    query: Seq<char>,
    content: Seq<char>,
) -> (at: Seq<int>)
    requires
        forall|i: int|
            0 <= i < lines_of(content).len() && occurs_in(query, #[trigger] lines_of(content)[i])
                ==> occurs_in(lowercase_of(query), lowercase_of(lines_of(content)[i])),
    ensures
        stands_in_order(matching_lines(query, content), matching_lines_folded(query, content), at),
        matching_lines(query, content).len() <= matching_lines_folded(query, content).len(),
{
    let lines = lines_of(content);
    let narrow = holds(query);
    let wide = holds_folded(lowercase_of(query));
    assert forall|i: int|
        0 <= i < lines.len() && narrow(#[trigger] lines[i]) implies wide(lines[i]) by {}
    lemma_wider_filter_keeps_more(lines, narrow, wide)
}

} // verus!
