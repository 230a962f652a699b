use workbench::hurl::app::App;
use workbench::hurl::directories::Directories;
use workbench::hurl::errors::Error;
use workbench::hurl::params::Parameter;
use workbench::hurl::session::{cookie_header, is_session_header, Session, SessionParts};

fn session_options() -> App {
    App {
        quiet: false,
        verbose: 0,
        form: false,
        auth: None,
        token: None,
        secure: false,
        cmd: None,
        url: Some("example.com".to_string()),
        parameters: Vec::new(),
        config: None,
        session: Some("work".to_string()),
        session_dir: None,
        read_only: false,
    }
}

fn config_home() -> Directories {
    Directories::under(Some("/home/alice/.config".to_string())).unwrap()
}

fn header_parameter_of(key: &str, value: &str) -> Parameter {
    Parameter::Header {
        key: key.to_string(),
        value: value.to_string(),
    }
}

fn entry(a: &str, b: &str) -> (String, String) {
    (a.to_string(), b.to_string())
}

fn fresh() -> Session {
    Session::new(
        &session_options(),
        "work".to_string(),
        "example_com".to_string(),
        false,
        &config_home(),
    )
}

#[test]
fn a_session_is_kept_under_its_host_and_name() {
    let options = session_options();
    assert_eq!(
        Session::dir(&options, "example.com", false, &config_home()),
        "/home/alice/.config/hurl/sessions/example_com"
    );
    assert_eq!(
        Session::path(&options, "my session!", "example.com", false, &config_home()),
        "/home/alice/.config/hurl/sessions/example_com/my session_.json"
    );
}

#[test]
fn a_named_directory_is_used_if_it_is_one() {
    let mut options = session_options();
    options.session_dir = Some("/tmp/sessions".to_string());
    assert_eq!(
        Session::dir(&options, "a/b", true, &config_home()),
        "/tmp/sessions/a_b"
    );
    assert_eq!(
        Session::path(&options, "n", "a/b", true, &config_home()),
        "/tmp/sessions/a_b/n.json"
    );
    assert_eq!(
        Session::dir(&options, "a/b", false, &config_home()),
        "/home/alice/.config/hurl/sessions/a_b"
    );
}

#[test]
fn a_new_session_holds_nothing_but_its_place() {
    let parts = fresh().to_parts();
    assert_eq!(
        parts,
        SessionParts {
            path: "/home/alice/.config/hurl/sessions/example_com/work.json".to_string(),
            name: "work".to_string(),
            host: "example_com".to_string(),
            auth: None,
            token: None,
            headers: Vec::new(),
            cookies: Vec::new(),
        }
    );
    assert!(fresh().add_to_request().is_empty());
}

#[test]
fn a_session_that_was_read_is_taken_as_it_is() {
    let stored = Session::from_parts(SessionParts {
        path: "/elsewhere/s.json".to_string(),
        name: "old".to_string(),
        host: "h".to_string(),
        auth: Some("u:p".to_string()),
        token: None,
        headers: vec![entry("x", "1")],
        cookies: vec![entry("c", "2")],
    });
    let session = Session::get_or_create(
        &session_options(),
        "work".to_string(),
        "example_com".to_string(),
        Ok(stored),
        false,
        &config_home(),
    );
    let parts = session.to_parts();
    assert_eq!(parts.path, "/elsewhere/s.json");
    assert_eq!(parts.name, "old");
    assert_eq!(parts.auth.as_deref(), Some("u:p"));
    assert_eq!(parts.headers, vec![entry("x", "1")]);
    assert_eq!(parts.cookies, vec![entry("c", "2")]);
}

#[test]
fn a_session_that_could_not_be_read_is_made_anew() {
    let session = Session::get_or_create(
        &session_options(),
        "work".to_string(),
        "example_com".to_string(),
        Err(Error::IO("NotFound".to_string())),
        false,
        &config_home(),
    );
    assert_eq!(session.to_parts(), fresh().to_parts());
}

#[test]
fn headers_are_remembered_each_under_its_key() {
    let mut session = fresh();
    session.update_with_parameters(&vec![
        header_parameter_of("X-Token", "a"),
        Parameter::Data {
            key: "X-Data".to_string(),
            value: "no header".to_string(),
        },
        header_parameter_of("Accept", "text/html"),
        header_parameter_of("X-Token", "b"),
        Parameter::Query {
            key: "Accept".to_string(),
            value: "no header either".to_string(),
        },
    ]);
    assert_eq!(
        session.add_to_request(),
        vec![entry("X-Token", "b"), entry("Accept", "text/html")]
    );
    session.update_with_parameters(&vec![header_parameter_of("Accept", "*/*"), header_parameter_of("x-token", "c")]);
    assert_eq!(
        session.add_to_request(),
        vec![entry("X-Token", "b"), entry("Accept", "*/*"), entry("x-token", "c")]
    );
    session.update_with_parameters(&Vec::new());
    assert_eq!(session.add_to_request().len(), 3);
}

#[test]
fn headers_of_one_request_are_not_remembered() {
    let mut session = fresh();
    session.update_with_parameters(&vec![
        header_parameter_of("Content-Type", "application/json"),
        header_parameter_of("content-length", "12"),
        header_parameter_of("CONTENT-ENCODING", "gzip"),
        header_parameter_of("If-Match", "abc"),
        header_parameter_of("if-none-match", "def"),
        header_parameter_of("IF-", ""),
        header_parameter_of("Content", "kept"),
        header_parameter_of("If", "kept"),
        header_parameter_of("X-Content-Type", "kept"),
        header_parameter_of("Iffy", "kept"),
    ]);
    assert_eq!(
        session.add_to_request(),
        vec![
            entry("Content", "kept"),
            entry("If", "kept"),
            entry("X-Content-Type", "kept"),
            entry("Iffy", "kept")
        ]
    );
    assert!(!is_session_header("Content-Type"));
    assert!(!is_session_header("if-range"));
    assert!(is_session_header("Authorization"));
    assert!(is_session_header(""));
    assert!(is_session_header("Ｃontent-type"));
}

#[test]
fn what_is_given_replaces_who_the_user_is() {
    let mut session = fresh();
    session.update_auth(&Some("me:pw".to_string()), &None);
    assert_eq!(session.to_parts().auth.as_deref(), Some("me:pw"));
    assert_eq!(session.to_parts().token, None);
    session.update_auth(&None, &Some("tok".to_string()));
    assert_eq!(session.to_parts().auth.as_deref(), Some("me:pw"));
    assert_eq!(session.to_parts().token.as_deref(), Some("tok"));
    session.update_auth(&Some("you".to_string()), &Some("new".to_string()));
    assert_eq!(session.to_parts().auth.as_deref(), Some("you"));
    assert_eq!(session.to_parts().token.as_deref(), Some("new"));
    session.update_auth(&None, &None);
    assert_eq!(session.to_parts().auth.as_deref(), Some("you"));
    assert_eq!(session.to_parts().token.as_deref(), Some("new"));
}

#[test]
fn cookies_go_into_one_header() {
    let mut session = fresh();
    session.update_with_parameters(&vec![header_parameter_of("Accept", "*/*")]);
    session.update_with_response(&vec![entry("id", "42")]);
    assert_eq!(
        session.add_to_request(),
        vec![entry("Accept", "*/*"), entry("cookie", "id=42")]
    );
    session.update_with_response(&vec![entry("theme", "dark"), entry("id", "43")]);
    session.update_with_response(&Vec::new());
    assert_eq!(
        session.add_to_request(),
        vec![
            entry("Accept", "*/*"),
            entry("cookie", "id=42; theme=dark; id=43")
        ]
    );
    assert_eq!(
        session.to_parts().cookies,
        vec![entry("id", "42"), entry("theme", "dark"), entry("id", "43")]
    );
}

#[test]
fn the_cookie_header_joins_names_and_values() {
    assert_eq!(cookie_header(&Vec::new()), "");
    assert_eq!(cookie_header(&vec![entry("a", "1")]), "a=1");
    assert_eq!(cookie_header(&vec![entry("", "")]), "=");
    assert_eq!(
        cookie_header(&vec![entry("a", "1"), entry("b", ""), entry("", "3")]),
        "a=1; b=; =3"
    );
}

#[test]
fn a_stored_session_holds_each_header_once() {
    let session = Session::from_parts(SessionParts {
        path: "p".to_string(),
        name: "n".to_string(),
        host: "h".to_string(),
        auth: None,
        token: Some("t".to_string()),
        headers: vec![entry("a", "1"), entry("b", "2"), entry("a", "3")],
        cookies: vec![entry("c", "1"), entry("c", "1")],
    });
    let parts = session.to_parts();
    assert_eq!(parts.headers, vec![entry("a", "3"), entry("b", "2")]);
    assert_eq!(parts.cookies, vec![entry("c", "1"), entry("c", "1")]);
    assert_eq!(parts.token.as_deref(), Some("t"));
    assert_eq!(parts.path, "p");
    assert_eq!(Session::from_parts(parts).to_parts().headers.len(), 2);
}
