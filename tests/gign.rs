use gign::listing::{listing, push_decimal};
use gign::session::{
    get_gitignore_url, output_dir, requested_langs, Action, Args, Event, GignError, Phase,
    Request, Session,
};
use gign::text::{is_space_char, join_fields, split_fields, split_words};

const BASE: &str = "https://www.toptal.com/developers/gitignore/api/";

fn strings(v: &[&str]) -> Vec<String> {
    v.iter().map(|s| s.to_string()).collect()
}

fn normal_args(lang: Option<&str>, path: Option<&str>) -> Args {
    Args { lang: lang.map(|s| s.to_string()), path: path.map(|s| s.to_string()), avail: false }
}

fn expect_finish(a: Action) -> (Vec<String>, Result<(), GignError>) {
    match a {
        Action::Finish { lines, result } => (lines, result),
        other => panic!("expected Finish, got {:?}", other),
    }
}

#[test]
fn default_language_is_rust() {
    assert_eq!(requested_langs(&None), strings(&["rust"]));
}

#[test]
fn languages_split_on_whitespace() {
    assert_eq!(requested_langs(&Some("a b  c".to_string())), strings(&["a", "b", "c"]));
}

#[test]
fn languages_trim_tabs_newlines_and_unicode_spaces() {
    assert_eq!(
        requested_langs(&Some("\t rust\ngo\u{3000}node \r".to_string())),
        strings(&["rust", "go", "node"])
    );
}

#[test]
fn blank_language_option_requests_nothing() {
    assert_eq!(requested_langs(&Some(String::new())), Vec::<String>::new());
    assert_eq!(requested_langs(&Some("   ".to_string())), Vec::<String>::new());
}

#[test]
fn split_words_keeps_commas_inside_words() {
    assert_eq!(split_words("rust,go  python"), strings(&["rust,go", "python"]));
}

#[test]
fn whitespace_characters() {
    for c in [' ', '\t', '\n', '\u{b}', '\u{c}', '\r', '\u{85}', '\u{a0}', '\u{2003}', '\u{2028}', '\u{3000}'] {
        assert!(is_space_char(c), "{:?}", c);
        assert_eq!(is_space_char(c), c.is_whitespace());
    }
    for c in ['a', ',', '_', '\u{200b}', '\u{feff}', 'é'] {
        assert!(!is_space_char(c), "{:?}", c);
        assert_eq!(is_space_char(c), c.is_whitespace());
    }
}

#[test]
fn content_url_joins_in_order_with_repeats() {
    let url = get_gitignore_url(&strings(&["rust", "go", "rust"]));
    assert_eq!(url, format!("{}rust,go,rust", BASE));
}

#[test]
fn content_url_of_one_and_of_none() {
    assert_eq!(get_gitignore_url(&strings(&["python"])), format!("{}python", BASE));
    assert_eq!(get_gitignore_url(&Vec::new()), BASE.to_string());
}

#[test]
fn split_fields_keeps_empty_and_spaced_pieces() {
    assert_eq!(split_fields("Python,Go,Rust"), strings(&["Python", "Go", "Rust"]));
    assert_eq!(split_fields(",a,, b "), strings(&["", "a", "", " b "]));
    assert_eq!(split_fields(""), strings(&[""]));
    assert_eq!(split_fields("go"), strings(&["go"]));
}

#[test]
fn join_then_split_gives_identifiers_back() {
    let ids = strings(&["c", "a", "c", "b"]);
    let joined = join_fields(&ids);
    assert_eq!(joined, "c,a,c,b");
    assert_eq!(split_fields(&joined), ids);
}

#[test]
fn decimal_notation() {
    let mut s = String::from("n=");
    push_decimal(&mut s, 0);
    assert_eq!(s, "n=0");
    let mut s = String::new();
    push_decimal(&mut s, 120);
    assert_eq!(s, "120");
    let mut s = String::new();
    push_decimal(&mut s, usize::MAX);
    assert_eq!(s, usize::MAX.to_string());
}

#[test]
fn listing_of_three() {
    assert_eq!(listing("Python,Go,Rust"), strings(&["1. Python", "2. Go", "3. Rust"]));
}

#[test]
fn listing_numbers_past_nine_and_keeps_spaces() {
    let text = "a,b,c,d,e,f,g,h,i,j, k";
    let lines = listing(text);
    assert_eq!(lines.len(), 11);
    assert_eq!(lines[0], "1. a");
    assert_eq!(lines[9], "10. j");
    assert_eq!(lines[10], "11.  k");
}

#[test]
fn output_dir_defaults_to_current() {
    assert_eq!(output_dir(&None), "./");
    assert_eq!(output_dir(&Some("/tmp/x/".to_string())), "/tmp/x/");
}

#[test]
fn error_messages() {
    assert_eq!(GignError::PathNotFound.message(), "File path does not exist");
    assert_eq!(
        GignError::RemoteUnavailable(Request::List).message(),
        "Couldn't get supported langs. Try again later."
    );
    assert_eq!(
        GignError::RemoteUnavailable(Request::Content).message(),
        "Couldn't create gitignore. Try again later."
    );
    assert_eq!(GignError::WriteFailed.message(), "Couldn't create gitignore");
}

#[test]
fn list_mode_prints_numbered_lines() {
    let args = Args { lang: Some("go".to_string()), path: Some("/nowhere".to_string()), avail: true };
    let (mut s, a) = Session::start(&args);
    match a {
        Action::FetchList { url } => assert_eq!(url, format!("{}list", BASE)),
        other => panic!("unexpected {:?}", other),
    }
    let a = s.step(Event::Body(Some("Python,Go,Rust".to_string())));
    let (lines, result) = expect_finish(a);
    assert_eq!(lines, strings(&["1. Python", "2. Go", "3. Rust"]));
    assert_eq!(result, Ok(()));
    assert_eq!(s.phase, Phase::Finished);
    assert!(!s.awaits(&Event::Written(true)));
}

#[test]
fn list_mode_failure() {
    let args = Args { lang: None, path: None, avail: true };
    let (mut s, _) = Session::start(&args);
    let (lines, result) = expect_finish(s.step(Event::Body(None)));
    assert!(lines.is_empty());
    assert_eq!(result, Err(GignError::RemoteUnavailable(Request::List)));
}

#[test]
fn missing_dir_fails_before_any_request() {
    let (mut s, a) = Session::start(&normal_args(Some("rust"), Some("/no/such/dir")));
    match a {
        Action::CheckDir { dir } => assert_eq!(dir, "/no/such/dir"),
        other => panic!("unexpected {:?}", other),
    }
    let (lines, result) = expect_finish(s.step(Event::DirExists(false)));
    assert!(lines.is_empty());
    assert_eq!(result, Err(GignError::PathNotFound));
    assert!(!s.awaits(&Event::Body(Some(String::new()))));
    assert!(!s.awaits(&Event::DirExists(true)));
}

#[test]
fn failed_fetch_writes_nothing() {
    let (mut s, _) = Session::start(&normal_args(None, None));
    match s.step(Event::DirExists(true)) {
        Action::FetchContent { url } => assert_eq!(url, format!("{}rust", BASE)),
        other => panic!("unexpected {:?}", other),
    }
    let (lines, result) = expect_finish(s.step(Event::Body(None)));
    assert!(lines.is_empty());
    assert_eq!(result, Err(GignError::RemoteUnavailable(Request::Content)));
    assert!(!s.awaits(&Event::Written(true)));
}

#[test]
fn successful_run_writes_body_unchanged() {
    let (mut s, a) = Session::start(&normal_args(Some("rust go"), Some("out")));
    match a {
        Action::CheckDir { dir } => assert_eq!(dir, "out"),
        other => panic!("unexpected {:?}", other),
    }
    match s.step(Event::DirExists(true)) {
        Action::FetchContent { url } => assert_eq!(url, format!("{}rust,go", BASE)),
        other => panic!("unexpected {:?}", other),
    }
    let body = "# rust\ntarget/\n\n# go\n*.exe\n".to_string();
    match s.step(Event::Body(Some(body.clone()))) {
        Action::WriteFile { dir, content } => {
            assert_eq!(dir, "out");
            assert_eq!(content.as_bytes(), body.as_bytes());
        }
        other => panic!("unexpected {:?}", other),
    }
    let (lines, result) = expect_finish(s.step(Event::Written(true)));
    assert!(lines.is_empty());
    assert_eq!(result, Ok(()));
}

#[test]
fn rerun_writes_new_body_only() {
    let (mut s, _) = Session::start(&normal_args(Some("python"), None));
    s.step(Event::DirExists(true));
    match s.step(Event::Body(Some("__pycache__/\n".to_string()))) {
        Action::WriteFile { dir, content } => {
            assert_eq!(dir, "./");
            assert_eq!(content, "__pycache__/\n");
            assert!(!content.contains("target/"));
        }
        other => panic!("unexpected {:?}", other),
    }
}

#[test]
fn write_failure() {
    let (mut s, _) = Session::start(&normal_args(None, None));
    s.step(Event::DirExists(true));
    s.step(Event::Body(Some("x".to_string())));
    assert_eq!(s.phase, Phase::AwaitWrite);
    let (lines, result) = expect_finish(s.step(Event::Written(false)));
    assert!(lines.is_empty());
    assert_eq!(result, Err(GignError::WriteFailed));
}

#[test]
fn session_waits_only_for_matching_events() {
    let (s, _) = Session::start(&normal_args(None, None));
    assert!(s.awaits(&Event::DirExists(true)));
    assert!(!s.awaits(&Event::Body(None)));
    assert!(!s.awaits(&Event::Written(true)));
}
