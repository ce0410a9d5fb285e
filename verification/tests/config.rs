use minigrep::Config;

fn command_line(words: &[&str]) -> Vec<String> {
    words.iter().map(|word| word.to_string()).collect()
}

#[test]
fn build_reads_query_and_file_path() {
    let built = Config::build(command_line(&["minigrep", "needle", "haystack.txt"]), None);
    let config = built.ok().expect("two arguments are enough");
    assert_eq!(config.query, "needle");
    assert_eq!(config.file_path, "haystack.txt");
    assert!(!config.ignore_case);
}

#[test]
fn build_passes_over_the_program_name_and_ignores_what_follows() {
    let built = Config::build(
        command_line(&["needle", "haystack.txt", "third", "fourth", "fifth"]),
        None,
    );
    let config = built.ok().expect("two arguments are enough");
    assert_eq!(config.query, "haystack.txt");
    assert_eq!(config.file_path, "third");
}

#[test]
fn build_without_file_path_fails() {
    let built = Config::build(command_line(&["minigrep", "needle"]), None);
    assert_eq!(built.err(), Some("Didn't get a file path"));
    let built = Config::build(
        command_line(&["minigrep", "needle"]),
        Some(String::from("1")),
    );
    assert_eq!(built.err(), Some("Didn't get a file path"));
}

#[test]
fn build_without_query_fails() {
    let built = Config::build(command_line(&["minigrep"]), None);
    assert_eq!(built.err(), Some("Didn't get a query string"));
    let built = Config::build(Vec::new(), None);
    assert_eq!(built.err(), Some("Didn't get a query string"));
}

#[test]
fn build_ignores_case_when_the_switch_is_set_to_anything() {
    for value in ["1", "0", "", "false", "no"] {
        let built = Config::build(
            command_line(&["minigrep", "needle", "haystack.txt"]),
            Some(String::from(value)),
        );
        let config = built.ok().expect("two arguments are enough");
        assert!(config.ignore_case);
        assert_eq!(config.query, "needle");
        assert_eq!(config.file_path, "haystack.txt");
    }
}

#[test]
fn build_accepts_empty_arguments() {
    let built = Config::build(command_line(&["", "", ""]), None);
    let config = built.ok().expect("two arguments are enough");
    assert_eq!(config.query, "");
    assert_eq!(config.file_path, "");
}
