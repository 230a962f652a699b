use workbench::addition::add;
use workbench::blog::{AppError, DatabaseFault};
use workbench::greeting::greet;
use workbench::text::{
    chars_of, push_chars, push_decimal, slice_of, starts_with, string_of, to_ascii_lowercase,
};

#[test]
fn add_adds() {
    assert_eq!(add(0, 0), 0);
    assert_eq!(add(2, 40), 42);
    assert_eq!(add(u32::MAX, 0), u32::MAX);
    assert_eq!(add(u32::MAX - 5, 5), u32::MAX);
}

#[test]
fn greet_greets_by_name() {
    assert_eq!(greet("Rust"), "Hello, Rust!");
    assert_eq!(greet(""), "Hello, !");
    assert_eq!(greet("Zoë 🙂"), "Hello, Zoë 🙂!");
}

#[test]
fn blog_errors_have_their_messages() {
    assert_eq!(
        AppError::RecordAlreadyExists.message(),
        "This record violates a unique constraint"
    );
    assert_eq!(AppError::RecordNotFound.message(), "This record does not exist");
    assert_eq!(
        AppError::DatabaseError("RollbackTransaction".to_string()).message(),
        "Database error: RollbackTransaction"
    );
    assert_eq!(
        AppError::OperationCanceled.message(),
        "The running operation was canceled"
    );
}

#[test]
fn blog_errors_have_their_status() {
    let (status, body) = AppError::RecordAlreadyExists.error_response();
    assert_eq!(status, 400);
    assert_eq!(body.err, "This record violates a unique constraint");
    let (status, body) = AppError::RecordNotFound.error_response();
    assert_eq!(status, 404);
    assert_eq!(body.err, "This record does not exist");
    let (status, body) = AppError::DatabaseError("x".to_string()).render_response();
    assert_eq!(status, 500);
    assert_eq!(body.err, "Database error: x");
    assert_eq!(AppError::OperationCanceled.error_response().0, 500);
}

#[test]
fn database_faults_become_blog_errors() {
    assert!(matches!(
        AppError::from_database(DatabaseFault::UniqueViolation),
        AppError::RecordAlreadyExists
    ));
    assert!(matches!(
        AppError::from_database(DatabaseFault::NotFound),
        AppError::RecordNotFound
    ));
    match AppError::from_database(DatabaseFault::Other("broken".to_string())) {
        AppError::DatabaseError(e) => assert_eq!(e, "broken"),
        other => panic!("unexpected {:?}", other),
    }
    assert!(matches!(
        AppError::from_blocking(None),
        AppError::OperationCanceled
    ));
    assert!(matches!(
        AppError::from_blocking(Some(AppError::RecordNotFound)),
        AppError::RecordNotFound
    ));
}

#[test]
fn decimal_digits_are_pushed() {
    for (n, expected) in [
        (0u64, "0"),
        (9, "9"),
        (10, "10"),
        (404, "404"),
        (65535, "65535"),
        (u64::MAX, "18446744073709551615"),
    ] {
        let mut out = String::from("n=");
        push_decimal(&mut out, n);
        assert_eq!(out, format!("n={}", expected));
    }
}

#[test]
fn texts_become_characters_and_back() {
    let chars = chars_of("aé🙂");
    assert_eq!(chars, vec!['a', 'é', '🙂']);
    assert_eq!(string_of(&chars), "aé🙂");
    assert_eq!(string_of(&Vec::new()), "");
    assert_eq!(slice_of(&chars, 1, 3), vec!['é', '🙂']);
    assert_eq!(slice_of(&chars, 2, 2), Vec::<char>::new());
    let mut out = vec!['x'];
    push_chars(&mut out, &chars);
    assert_eq!(out, vec!['x', 'a', 'é', '🙂']);
}

#[test]
fn only_ascii_capitals_are_made_small() {
    assert_eq!(
        string_of(&to_ascii_lowercase("Content-TYPE: ÄZ@[`{")),
        "content-type: Äz@[`{"
    );
    assert_eq!(
        string_of(&to_ascii_lowercase("ÀÉ")),
        "ÀÉ".to_ascii_lowercase()
    );
}

#[test]
fn a_text_begins_with_its_prefixes() {
    let text = chars_of("if-match");
    assert!(starts_with(&text, &chars_of("if-")));
    assert!(starts_with(&text, &chars_of("")));
    assert!(starts_with(&text, &text));
    assert!(!starts_with(&text, &chars_of("if-match-more")));
    assert!(!starts_with(&text, &chars_of("f-")));
    assert!(!starts_with(&chars_of(""), &chars_of("x")));
}
