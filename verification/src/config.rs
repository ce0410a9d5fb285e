//! What one search needs to know, and how it is read from a command line.

use vstd::prelude::*;

verus! {

/// The settings of one search.
pub struct Config {
    /// The text to look for.
    pub query: String,
    /// The path of the file whose lines are searched.
    pub file_path: String,
    /// Whether the case of letters is left out of account.
    pub ignore_case: bool,
}

/// What `Config::build` answers to a command line without a query.
pub open spec fn missing_query() -> Seq<char> {
    "Didn't get a query string"@
}

/// What `Config::build` answers to a command line without a file path.
pub open spec fn missing_file_path() -> Seq<char> {
    "Didn't get a file path"@
}

impl Config {
    /// Reads the settings from a command line and from the switch that asks
    /// for a search without regard to case. `args[0]` is the program's name
    /// and is passed over; `args[1]` is the query and `args[2]` the file
    /// path; anything after that is ignored. `case_switch` is what the switch
    /// is set to, or `None` where it is not set: that it is set is all that
    /// counts, whatever it is set to.
    ///
    /// A command line that ends before the query, or before the file path,
    /// is answered with a message that says which of the two is missing.
    pub fn build(args: Vec<String>, case_switch: Option<String>) -> (built: Result<
        Config,
        &'static str,
    >)
        ensures
            args.len() < 2 ==> (built matches Err(message) && message@ == missing_query()),
            args.len() == 2 ==> (built matches Err(message) && message@ == missing_file_path()),
            args.len() >= 3 ==> (built matches Ok(config) && config.query@ == args[1]@
                && config.file_path@ == args[2]@ && config.ignore_case == case_switch.is_some()),
    {
        let mut args = args;
        if args.len() < 2 {
            return Err("Didn't get a query string");
        }
        if args.len() < 3 {
            return Err("Didn't get a file path");
        }
        let file_path = args.swap_remove(2);
        let query = args.swap_remove(1);
        let ignore_case = case_switch.is_some();
        Ok(Config { query, file_path, ignore_case })
    }
}

} // verus!
