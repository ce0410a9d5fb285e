use minigrep::{run, search, search_case_insensitive, Config};

#[test]
fn case_sensitive() {
    let query = "duct";
    let contents = "\
Rust:
safe, fast, productive.
Pick three.
Duct tape.";
    assert_eq!(vec!["safe, fast, productive."], search(query, contents));
}

#[test]
fn case_insensitive() {
    let query = "rUsT";
    let contents = "\
Rust:
safe, fast, productive.
Pick three.
Trust me.";

    assert_eq!(
        vec!["Rust:", "Trust me."],
        search_case_insensitive(query, contents)
    );
}

#[test]
fn exact_search_tells_upper_from_lower() {
    let contents = "Rust:\nsafe, fast, productive.\nPick three.\nTrust me.";
    assert_eq!(search("rUsT", contents), Vec::<&str>::new());
    assert_eq!(search("rust", contents), vec!["Trust me."]);
    assert_eq!(search("Rust", contents), vec!["Rust:"]);
}

#[test]
fn folded_search_returns_lines_as_written() {
    let contents = "ONE fish\ntwo FISH\nred bird\nBlue Fish";
    assert_eq!(
        search_case_insensitive("fIsH", contents),
        vec!["ONE fish", "two FISH", "Blue Fish"]
    );
}

#[test]
fn folded_search_lowercases_the_line_too() {
    assert_eq!(search_case_insensitive("abc", "xABCx"), vec!["xABCx"]);
    assert_eq!(search_case_insensitive("ABC", "xabcx"), vec!["xabcx"]);
    assert_eq!(search_case_insensitive("abd", "xABCx"), Vec::<&str>::new());
}

#[test]
fn folded_search_knows_letters_beyond_ascii() {
    let contents = "GR\u{dc}\u{df}E\n\u{c9}t\u{e9}\nplain";
    assert_eq!(search_case_insensitive("gr\u{fc}", contents), vec!["GR\u{dc}\u{df}E"]);
    assert_eq!(search_case_insensitive("\u{c9}T\u{c9}", contents), vec!["\u{c9}t\u{e9}"]);
    assert_eq!(search("gr\u{fc}", contents), Vec::<&str>::new());
}

#[test]
fn empty_query_returns_every_line() {
    let contents = "first\n\nthird\r\nfourth\n";
    assert_eq!(search("", contents), vec!["first", "", "third", "fourth"]);
    assert_eq!(
        search_case_insensitive("", contents),
        vec!["first", "", "third", "fourth"]
    );
}

#[test]
fn empty_content_returns_nothing() {
    assert_eq!(search("anything", ""), Vec::<&str>::new());
    assert_eq!(search("", ""), Vec::<&str>::new());
    assert_eq!(search_case_insensitive("anything", ""), Vec::<&str>::new());
    assert_eq!(search_case_insensitive("", ""), Vec::<&str>::new());
}

#[test]
fn query_longer_than_any_line_returns_nothing() {
    let contents = "ab\ncd\nef";
    assert_eq!(search("abcdef", contents), Vec::<&str>::new());
    assert_eq!(search_case_insensitive("ABCDEF", contents), Vec::<&str>::new());
}

#[test]
fn query_does_not_match_across_a_line_break() {
    assert_eq!(search("ab", "a\nb"), Vec::<&str>::new());
    assert_eq!(search("a\nb", "a\nb"), Vec::<&str>::new());
    assert_eq!(search("\n", "a\nb\n"), Vec::<&str>::new());
}

#[test]
fn content_of_line_breaks_only_has_empty_lines() {
    assert_eq!(search("", "\n\n\n"), vec!["", "", ""]);
    assert_eq!(search("x", "\n\n\n"), Vec::<&str>::new());
    assert_eq!(search_case_insensitive("", "\r\n\r\n"), vec!["", ""]);
}

#[test]
fn content_without_line_break_is_one_line() {
    assert_eq!(search("needle", "hay needle hay"), vec!["hay needle hay"]);
    assert_eq!(search("thread", "hay needle hay"), Vec::<&str>::new());
}

#[test]
fn match_at_either_end_of_a_line_counts() {
    let contents = "needle first\nlast needle\nneedle\nneedl";
    assert_eq!(
        search("needle", contents),
        vec!["needle first", "last needle", "needle"]
    );
}

#[test]
fn carriage_return_before_line_feed_is_no_part_of_the_line() {
    let contents = "one\r\ntwo\r\n";
    assert_eq!(search("o", contents), vec!["one", "two"]);
    assert_eq!(search("\r", contents), Vec::<&str>::new());
}

#[test]
fn carriage_return_elsewhere_stays_in_the_line() {
    assert_eq!(search("\r", "a\rb\nc\r"), vec!["a\rb", "c\r"]);
    assert_eq!(search("\r", "a\r\r\nb"), vec!["a\r"]);
}

#[test]
fn results_keep_the_order_and_the_count_of_the_content() {
    let contents = "b1\na\nb2\nb1\nc\nb3";
    let found = search("b", contents);
    assert_eq!(found, vec!["b1", "b2", "b1", "b3"]);
    let lines: Vec<&str> = contents.lines().collect();
    let mut from = 0;
    for line in &found {
        assert!(line.contains("b"));
        let at = lines[from..]
            .iter()
            .position(|candidate| candidate == line);
        assert!(at.is_some());
        from += at.unwrap() + 1;
    }
}

#[test]
fn folded_results_keep_the_order_and_the_count_of_the_content() {
    let contents = "B1\na\nb2\nB1\nc\nb3";
    let found = search_case_insensitive("B", contents);
    assert_eq!(found, vec!["B1", "b2", "B1", "b3"]);
    for line in &found {
        assert!(line.to_lowercase().contains("b"));
    }
}

#[test]
fn results_are_slices_of_the_content() {
    let contents = String::from("alpha\nbeta\ngamma");
    let found = search("a", &contents);
    assert_eq!(found, vec!["alpha", "beta", "gamma"]);
    let start = contents.as_ptr() as usize;
    let end = start + contents.len();
    for line in found {
        let at = line.as_ptr() as usize;
        assert!(start <= at && at + line.len() <= end);
    }
    for line in search_case_insensitive("A", &contents) {
        let at = line.as_ptr() as usize;
        assert!(start <= at && at + line.len() <= end);
    }
}

#[test]
fn searching_twice_gives_the_same_lines() {
    let contents = "Rust:\nsafe, fast, productive.\nPick three.\nTrust me.";
    assert_eq!(search("st", contents), search("st", contents));
    assert_eq!(
        search_case_insensitive("RuSt", contents),
        search_case_insensitive("RuSt", contents)
    );
}

#[test]
fn folded_search_returns_at_least_the_exact_matches() {
    let contents = "Rust:\nsafe, fast, productive.\nPick three.\nTrust me.\nrust never sleeps";
    for query in ["rust", "Rust", "t", "T", "Pick", "", "zzz"] {
        let exact = search(query, contents);
        let folded = search_case_insensitive(query, contents);
        assert!(exact.len() <= folded.len());
        let mut from = 0;
        for line in &exact {
            let at = folded[from..]
                .iter()
                .position(|candidate| candidate == line);
            assert!(at.is_some());
            from += at.unwrap() + 1;
        }
    }
    assert_eq!(search("rust", contents), vec!["Trust me.", "rust never sleeps"]);
    assert_eq!(
        search_case_insensitive("rust", contents),
        vec!["Rust:", "Trust me.", "rust never sleeps"]
    );
}

#[test]
fn final_sigma_can_hide_an_exact_match_from_the_folded_search() {
    let contents = "\u{391}\u{3a3}\u{391}";
    let query = "\u{391}\u{3a3}";
    assert_eq!(search(query, contents), vec![contents]);
    assert_eq!(search_case_insensitive(query, contents), Vec::<&str>::new());
}

#[test]
fn run_searches_as_the_config_says() {
    let contents = "Rust:\nsafe, fast, productive.\nPick three.\nTrust me.";
    let exact = Config {
        query: String::from("rUsT"),
        file_path: String::from("poem.txt"),
        ignore_case: false,
    };
    assert_eq!(run(&exact, contents), Vec::<&str>::new());
    let folded = Config {
        query: String::from("rUsT"),
        file_path: String::from("poem.txt"),
        ignore_case: true,
    };
    assert_eq!(run(&folded, contents), vec!["Rust:", "Trust me."]);
    let plain = Config {
        query: String::from("duct"),
        file_path: String::from("poem.txt"),
        ignore_case: false,
    };
    assert_eq!(
        run(&plain, "Rust:\nsafe, fast, productive.\nPick three.\nDuct tape."),
        vec!["safe, fast, productive."]
    );
}
