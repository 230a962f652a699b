use workbench::minigrep::{run, search, search_case_insensitive, Config};

#[test]
fn case_sensitive() {
    let query = "duct";
    let contents = "\
Rust:
safe, fast, productive.
Pick three.
Duct tape";

    assert_eq!(vec!["safe, fast, productive."], search(query, contents));
}

#[test]
fn case_insensitive() {
    let query = "rUsT";
    let contents = "\
Rust:
safe, fast, productive.
Pick three.
Trust me.";

    assert_eq!(
        vec!["Rust:", "Trust me."],
        search_case_insensitive(query, contents)
    );
}

#[test]
fn search_finds_nothing_in_an_empty_text() {
    assert!(search("a", "").is_empty());
    assert!(search_case_insensitive("a", "").is_empty());
}

#[test]
fn search_with_an_empty_query_gives_every_line() {
    assert_eq!(vec!["one", "", "three"], search("", "one\n\nthree\n"));
}

#[test]
fn search_strips_a_carriage_return_only_before_a_line_feed() {
    assert_eq!(vec!["a", "a\r"], search("a", "a\r\nb\na\r"));
    assert_eq!(vec!["\ra"], search("a", "\ra\n"));
}

#[test]
fn search_gives_no_line_for_the_end_of_the_last_line() {
    assert_eq!(vec![""], search("", "\n"));
    assert_eq!(vec!["", ""], search("", "\n\n"));
    assert_eq!(vec!["x"], search("", "x"));
}

#[test]
fn search_finds_a_query_at_the_end_of_a_line() {
    assert_eq!(vec!["tape duct"], search("duct", "tape duct\nduck"));
    assert_eq!(vec!["aab"], search("ab", "aab"));
    assert!(search("abc", "ab").is_empty());
}

#[test]
fn search_handles_text_beyond_ascii() {
    assert_eq!(vec!["grüße"], search("üß", "hallo\ngrüße\n"));
    assert_eq!(
        vec!["GRÜN"],
        search_case_insensitive("grün", "rot\nGRÜN\nblau")
    );
}

#[test]
fn case_insensitive_search_lowers_the_query_too() {
    assert_eq!(vec!["rust"], search_case_insensitive("RUST", "rust"));
    assert!(search("RUST", "rust").is_empty());
}

#[test]
fn config_wants_a_query_and_a_file() {
    let none: Vec<String> = vec!["minigrep".to_string()];
    assert_eq!(Config::new(&none, false).err(), Some("Didn't get a query string"));
    let empty: Vec<String> = vec![];
    assert_eq!(Config::new(&empty, false).err(), Some("Didn't get a query string"));
    let one: Vec<String> = vec!["minigrep".to_string(), "needle".to_string()];
    assert_eq!(Config::new(&one, false).err(), Some("Didn't get a file name"));
}

#[test]
fn config_takes_the_query_then_the_file() {
    let args: Vec<String> = vec![
        "minigrep".to_string(),
        "needle".to_string(),
        "haystack.txt".to_string(),
        "more".to_string(),
    ];
    let config = Config::new(&args, false).ok().unwrap();
    assert_eq!(config.query, "needle");
    assert_eq!(config.filename, "haystack.txt");
    assert!(config.case_sensitive);
    let config = Config::new(&args, true).ok().unwrap();
    assert!(!config.case_sensitive);
}

#[test]
fn run_searches_as_the_configuration_says() {
    let contents = "Rust:\nTrust me.\nrust";
    let strict = Config {
        query: "rust".to_string(),
        filename: "poem.txt".to_string(),
        case_sensitive: true,
    };
    assert_eq!(vec!["Trust me.", "rust"], run(&strict, contents));
    let loose = Config {
        query: "rust".to_string(),
        filename: "poem.txt".to_string(),
        case_sensitive: false,
    };
    assert_eq!(vec!["Rust:", "Trust me.", "rust"], run(&loose, contents));
}
