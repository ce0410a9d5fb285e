//! Line-by-line substring search over text held in memory.
//!
//! [`search`] and [`search_case_insensitive`] return the lines of a text that
//! contain a query; [`run`] picks one of the two as a [`Config`] asks. Reading
//! the file and printing the lines is left to the caller.

pub mod config;
pub mod filter;
pub mod laws;
pub mod matcher;
pub mod strings;
pub mod text;

pub use config::Config;
pub use matcher::{search, search_case_insensitive, select};
pub use strings::{fold_lines, split_lines};

use matcher::{matching_lines, matching_lines_folded};
use vstd::prelude::*;

verus! {

/// Searches `content`, the text of the file that `config` names, for
/// `config.query`, with or without regard to case as `config.ignore_case`
/// says, and returns the lines to print, in order.
pub fn run<'a>(config: &Config, content: &'a str) -> (found: Vec<&'a str>)
    ensures
        config.ignore_case ==> found.deep_view() == matching_lines_folded(config.query@, content@),
        !config.ignore_case ==> found.deep_view() == matching_lines(config.query@, content@),
{
    if config.ignore_case {
        search_case_insensitive(config.query.as_str(), content)
    } else {
        search(config.query.as_str(), content)
    }
}

} // verus!
