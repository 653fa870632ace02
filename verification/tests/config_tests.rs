use minigrep::Config;

fn args_of(words: &[&str]) -> Vec<String> {
    words.iter().map(|w| String::from(*w)).collect()
}

#[test]
fn build_fails_with_fewer_than_three_arguments() {
    assert_eq!(
        Err("Not enough arguments"),
        Config::build(&args_of(&[]), false).map(|c| c.query)
    );
    assert_eq!(
        Err("Not enough arguments"),
        Config::build(&args_of(&["prog"]), false).map(|c| c.query)
    );
    assert_eq!(
        Err("Not enough arguments"),
        Config::build(&args_of(&["prog", "query"]), true).map(|c| c.query)
    );
}

#[test]
fn build_reads_query_and_file_path() {
    let config = Config::build(&args_of(&["prog", "needle", "notes.txt"]), false).unwrap();
    assert_eq!("needle", config.query);
    assert_eq!("notes.txt", config.file_path);
    assert!(!config.ignore_case);
}

#[test]
fn empty_query_is_accepted() {
    let config = Config::build(&args_of(&["prog", "", "notes.txt"]), false).unwrap();
    assert_eq!("", config.query);
}

#[test]
fn environment_flag_sets_ignore_case() {
    let config = Config::build(&args_of(&["prog", "needle", "notes.txt"]), true).unwrap();
    assert!(config.ignore_case);
}

#[test]
fn igc_argument_sets_ignore_case_without_the_environment_flag() {
    let config =
        Config::build(&args_of(&["prog", "needle", "notes.txt", "--igc"]), false).unwrap();
    assert!(config.ignore_case);
}

#[test]
fn igc_in_any_argument_slot_sets_ignore_case() {
    let config = Config::build(&args_of(&["prog", "--igc", "notes.txt"]), false).unwrap();
    assert!(config.ignore_case);
    assert_eq!("--igc", config.query);
}
