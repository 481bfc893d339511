use minigrep::grep::{chars_of, contains_chars, line_matches, search, split_lines, Config};

#[test]
fn search1() {
    let config = Config {
        target: "duct".to_string(),
        file_path: "".to_string(),
        is_ignore_case: false,
    };
    let contents = "\
Rust:
safe, fast, productive.
Pick three.";

    assert_eq!(vec!["safe, fast, productive."], search(&config, contents));
}

#[test]
fn search_ignore_case1() {
    let config = Config {
        target: "to".to_string(),
        file_path: "".to_string(),
        is_ignore_case: false,
    };
    let contents = "\
to
To
tO
TO
not
OT";

    assert_eq!(vec!["to"], search(&config, &contents));
}

#[test]
fn search_ignore_case2() {
    let config = Config {
        target: "to".to_string(),
        file_path: "".to_string(),
        is_ignore_case: true,
    };
    let contents = "\
to
To
tO
TO
not
OT";

    assert_eq!(vec!["to", "To", "tO", "TO"], search(&config, &contents));
}

#[test]
fn search_ignore_case_upper_target() {
    let config = Config {
        target: "RUST".to_string(),
        file_path: "".to_string(),
        is_ignore_case: true,
    };
    let contents = "Rust is here\nno match\ntrust me";
    assert_eq!(vec!["Rust is here", "trust me"], search(&config, contents));
}

#[test]
fn search_empty_target_selects_every_line() {
    let config = Config {
        target: "".to_string(),
        file_path: "".to_string(),
        is_ignore_case: false,
    };
    assert_eq!(vec!["a", "", "b"], search(&config, "a\n\nb\n"));
}

#[test]
fn search_empty_contents() {
    let config = Config {
        target: "x".to_string(),
        file_path: "".to_string(),
        is_ignore_case: false,
    };
    assert!(search(&config, "").is_empty());
}

#[test]
fn split_lines_endings() {
    assert!(split_lines("").is_empty());
    assert_eq!(vec!["a"], split_lines("a\n"));
    assert_eq!(vec!["a", "b"], split_lines("a\r\nb"));
    assert_eq!(vec!["", ""], split_lines("\n\n"));
    assert_eq!(vec!["x\r"], split_lines("x\r"));
    assert_eq!(vec!["é", "ü"], split_lines("é\nü"));
}

#[test]
fn line_matches_cases() {
    assert!(line_matches("productive", "duct"));
    assert!(line_matches("abc", ""));
    assert!(line_matches("abc", "abc"));
    assert!(!line_matches("ab", "abc"));
    assert!(!line_matches("To", "to"));
    assert!(line_matches("aab", "ab"));
}

#[test]
fn chars_and_contains() {
    let h = chars_of("héllo");
    assert_eq!(vec!['h', 'é', 'l', 'l', 'o'], h);
    assert!(contains_chars(&h, &vec!['l', 'o']));
    assert!(!contains_chars(&h, &vec!['o', 'l']));
    assert!(contains_chars(&vec![], &vec![]));
    assert!(!contains_chars(&vec![], &vec!['a']));
}

#[test]
fn build_reads_target_and_path() {
    let args = vec!["prog".to_string(), "needle".to_string(), "poem.txt".to_string()];
    let config = Config::build(args).unwrap();
    assert_eq!("needle", config.target);
    assert_eq!("poem.txt", config.file_path);
    assert!(!config.is_ignore_case);
}

#[test]
fn build_ignores_extra_words() {
    let args = vec![
        "prog".to_string(),
        "a".to_string(),
        "b".to_string(),
        "c".to_string(),
    ];
    let config = Config::build(args).unwrap();
    assert_eq!("a", config.target);
    assert_eq!("b", config.file_path);
}

#[test]
fn build_missing_arguments() {
    assert!(Config::build(vec![]).is_err());
    assert!(Config::build(vec!["prog".to_string()]).is_err());
    assert!(Config::build(vec!["prog".to_string(), "needle".to_string()]).is_err());
}

#[test]
fn set_is_ignore_case_keeps_the_rest() {
    let args = vec!["prog".to_string(), "t".to_string(), "f".to_string()];
    let config = Config::build(args).unwrap().set_is_ignore_case(true);
    assert!(config.is_ignore_case);
    assert_eq!("t", config.target);
    assert_eq!("f", config.file_path);
    let config = config.set_is_ignore_case(false);
    assert!(!config.is_ignore_case);
}
