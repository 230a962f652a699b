use workbench::hurl::app::App;
use workbench::hurl::client::{
    check_form, handle_auth, handle_parameters, implied_method, is_multipart, localhost, parse,
    parse_auth, second_try, Attempt, Body, Contents, DataValue, FormPart, Password, Reading,
    RequestParts,
};
use workbench::hurl::errors::{Error, JsonCategory};
use workbench::hurl::params::{parse_param, Parameter};

fn client_options(secure: bool, form: bool) -> App {
    App {
        quiet: false,
        verbose: 0,
        form,
        auth: None,
        token: None,
        secure,
        cmd: None,
        url: None,
        parameters: Vec::new(),
        config: None,
        session: None,
        session_dir: None,
        read_only: false,
    }
}

fn parameters(arguments: &[&str]) -> Vec<Parameter> {
    arguments.iter().map(|a| parse_param(a).unwrap()).collect()
}

fn pair(a: &str, b: &str) -> (String, String) {
    (a.to_string(), b.to_string())
}

fn json(key: &str, text: &str) -> (String, DataValue) {
    (key.to_string(), DataValue::Json(text.as_bytes().to_vec()))
}

fn text_value(key: &str, value: &str) -> (String, DataValue) {
    (key.to_string(), DataValue::Text(value.to_string()))
}

fn unread(n: usize) -> Vec<Contents> {
    (0..n).map(|_| Contents::Unread).collect()
}

#[test]
fn a_shorthand_stands_for_the_local_host() {
    assert_eq!(localhost(":/foo"), Some("http://localhost/foo".to_string()));
    assert_eq!(localhost(":/"), Some("http://localhost/".to_string()));
    assert_eq!(
        localhost(":8080/x"),
        Some("http://localhost:8080/x".to_string())
    );
    assert_eq!(localhost(":"), Some("http://localhost:".to_string()));
    assert_eq!(localhost("example.com"), None);
    assert_eq!(localhost("/:"), None);
    assert_eq!(localhost(""), None);
}

#[test]
fn a_url_is_parsed_as_it_is_if_it_is_one() {
    assert_eq!(
        parse(&client_options(false, false), "https://example.com"),
        Ok("https://example.com/".to_string())
    );
    assert_eq!(
        parse(&client_options(true, false), "http://example.com/a b"),
        Ok("http://example.com/a%20b".to_string())
    );
    assert_eq!(
        parse(&client_options(false, false), ":/status"),
        Ok("http://localhost/status".to_string())
    );
    assert_eq!(
        parse(&client_options(true, false), ":3000/x"),
        Ok("http://localhost:3000/x".to_string())
    );
}

#[test]
fn a_url_without_transport_gets_the_default() {
    assert_eq!(
        parse(&client_options(false, false), "example.com/foo"),
        Ok("http://example.com/foo".to_string())
    );
    assert_eq!(
        parse(&client_options(true, false), "example.com/foo"),
        Ok("https://example.com/foo".to_string())
    );
}

#[test]
fn what_is_no_url_even_with_a_transport_is_refused() {
    assert_eq!(
        parse(&client_options(false, false), ""),
        Err(Error::UrlParseError("empty host".to_string()))
    );
    assert_eq!(
        parse(&client_options(false, false), ":99999999"),
        Err(Error::UrlParseError("invalid port number".to_string()))
    );
}

#[test]
fn the_second_try_puts_the_transport_in_front() {
    assert_eq!(
        second_try(Ok("http://a/".to_string()), true, "ignored"),
        Attempt::Parsed("http://a/".to_string())
    );
    assert_eq!(
        second_try(Err("no".to_string()), true, "a.b/c"),
        Attempt::Retry("https://a.b/c".to_string())
    );
    assert_eq!(
        second_try(Err("no".to_string()), false, "a.b/c"),
        Attempt::Retry("http://a.b/c".to_string())
    );
}

#[test]
fn an_authentication_string_names_user_and_password() {
    assert_eq!(
        parse_auth("user:pass"),
        ("user".to_string(), Password::Given("pass".to_string()))
    );
    assert_eq!(parse_auth("user:"), ("user".to_string(), Password::Absent));
    assert_eq!(parse_auth("user"), ("user".to_string(), Password::Ask));
    assert_eq!(parse_auth(""), ("".to_string(), Password::Ask));
    assert_eq!(
        parse_auth(":pw"),
        ("".to_string(), Password::Given("pw".to_string()))
    );
    assert_eq!(
        parse_auth("user::pa:ss"),
        ("user".to_string(), Password::Given("pa:ss".to_string()))
    );
    assert_eq!(parse_auth("user:::"), ("user".to_string(), Password::Absent));
    assert_eq!(
        parse_auth("ü:ö"),
        ("ü".to_string(), Password::Given("ö".to_string()))
    );
}

#[test]
fn the_options_say_who_asks() {
    let nobody = handle_auth(&None, &None);
    assert_eq!(nobody.basic, None);
    assert_eq!(nobody.bearer, None);
    let both = handle_auth(&Some("me:pw".to_string()), &Some("tok".to_string()));
    assert_eq!(
        both.basic,
        Some(("me".to_string(), Password::Given("pw".to_string())))
    );
    assert_eq!(both.bearer.as_deref(), Some("tok"));
    let asked = handle_auth(&Some("me".to_string()), &None);
    assert_eq!(asked.basic, Some(("me".to_string(), Password::Ask)));
}

#[test]
fn a_file_to_upload_needs_form_mode() {
    let upload = parameters(&["a=b", "photo@me.png"]);
    let plain = parameters(&["a=b", "c:d"]);
    assert!(is_multipart(&upload));
    assert!(!is_multipart(&plain));
    assert!(!is_multipart(&Vec::new()));
    assert_eq!(check_form(&client_options(false, true), &upload), Ok(true));
    assert_eq!(
        check_form(&client_options(false, false), &upload),
        Err(Error::NotFormButHasFormFile)
    );
    assert_eq!(check_form(&client_options(false, false), &plain), Ok(false));
    assert_eq!(check_form(&client_options(false, true), &plain), Ok(false));
}

#[test]
fn data_makes_a_request_a_post() {
    assert_eq!(implied_method(&Vec::new()), "GET");
    assert_eq!(implied_method(&parameters(&["a:b", "c==d"])), "GET");
    assert_eq!(implied_method(&parameters(&["a:b", "c=d"])), "POST");
    assert_eq!(implied_method(&parameters(&["f@x"])), "POST");
    assert_eq!(implied_method(&parameters(&["j:=1"])), "POST");
    assert_eq!(implied_method(&parameters(&["j:=@f", "a:b"])), "POST");
    assert_eq!(implied_method(&parameters(&["d=@f"])), "POST");
}

#[test]
fn parameters_tell_what_is_to_be_read() {
    let all = parameters(&["a:b", "a==b", "a=b", "a:=1", "a@f", "a=@f", "a:=@f"]);
    let needed: Vec<Reading> = all.iter().map(Reading::needed).collect();
    assert_eq!(
        needed,
        vec![
            Reading::Nothing,
            Reading::Nothing,
            Reading::Nothing,
            Reading::Nothing,
            Reading::Nothing,
            Reading::Text,
            Reading::Bytes
        ]
    );
}

#[test]
fn headers_and_query_keep_their_order() {
    let given = parameters(&["b:2", "q==x", "a:1", "b:3", "q==y"]);
    let request = handle_parameters(false, false, &given, &unread(5)).unwrap();
    assert_eq!(request.headers, vec![pair("b", "2"), pair("a", "1"), pair("b", "3")]);
    assert_eq!(request.query, vec![pair("q", "x"), pair("q", "y")]);
    assert_eq!(request.body, Body::Empty);
}

#[test]
fn data_is_sent_as_json_or_as_a_form() {
    let given = parameters(&["name=me", "tags:=[1,2]", "name=you", "n:=1"]);
    let request = handle_parameters(false, false, &given, &unread(4)).unwrap();
    assert_eq!(
        request.body,
        Body::Json(vec![text_value("name", "you"), json("tags", "[1,2]"), json("n", "1")])
    );
    let request = handle_parameters(true, false, &given, &unread(4)).unwrap();
    assert_eq!(
        request.body,
        Body::Form(vec![text_value("name", "you"), json("tags", "[1,2]"), json("n", "1")])
    );
    assert!(request.headers.is_empty());
}

#[test]
fn what_was_read_from_files_goes_into_the_data() {
    let given = parameters(&["bio=@bio.txt", "conf:=@conf.json"]);
    let contents = vec![
        Contents::Text("born\n".to_string()),
        Contents::Bytes(b"{\"a\": [1]}".to_vec()),
    ];
    let request = handle_parameters(false, false, &given, &contents).unwrap();
    assert_eq!(
        request.body,
        Body::Json(vec![text_value("bio", "born\n"), json("conf", "{\"a\": [1]}")])
    );
}

#[test]
fn json_that_is_none_is_refused_with_its_category() {
    for (argument, category) in [
        ("a:={", JsonCategory::Eof),
        ("a:=", JsonCategory::Eof),
        ("a:=[1,", JsonCategory::Eof),
        ("a:=nope", JsonCategory::Syntax),
        ("a:=1 2", JsonCategory::Syntax),
        ("a:={'a': 1}", JsonCategory::Syntax),
    ] {
        let given = parameters(&["h:1", argument, "x=y"]);
        assert_eq!(
            handle_parameters(false, false, &given, &unread(3)).err(),
            Some(Error::SerdeJson(category))
        );
    }
    let file = parameters(&["a:=@f.json"]);
    assert_eq!(
        handle_parameters(false, false, &file, &vec![Contents::Bytes(b"[1".to_vec())]).err(),
        Some(Error::SerdeJson(JsonCategory::Eof))
    );
    assert_eq!(
        handle_parameters(false, false, &file, &vec![Contents::Bytes(vec![0xff, 0xfe])]).err(),
        Some(Error::SerdeJson(JsonCategory::Syntax))
    );
}

#[test]
fn a_refused_parameter_leaves_the_parts_as_they_were() {
    let mut parts = RequestParts::new(false);
    let given = parameters(&["a=1", "b:=oops", "c=3"]);
    assert_eq!(parts.add(&given[0], Contents::Unread), Ok(()));
    assert_eq!(
        parts.add(&given[1], Contents::Unread),
        Err(Error::SerdeJson(JsonCategory::Syntax))
    );
    assert_eq!(parts.add(&given[2], Contents::Unread), Ok(()));
    assert_eq!(
        parts.finish(false).body,
        Body::Json(vec![text_value("a", "1"), text_value("c", "3")])
    );
}

#[test]
fn a_form_of_several_parts_takes_values_and_files() {
    let given = parameters(&["name=me", "photo@me.png", "j:=1", "h:v", "name=you"]);
    let request = handle_parameters(true, true, &given, &unread(5)).unwrap();
    assert_eq!(
        request.body,
        Body::Multipart(vec![
            FormPart::Text {
                key: "name".to_string(),
                value: "me".to_string()
            },
            FormPart::File {
                key: "photo".to_string(),
                filename: "me.png".to_string()
            },
            FormPart::Text {
                key: "name".to_string(),
                value: "you".to_string()
            },
        ])
    );
    assert_eq!(request.headers, vec![pair("h", "v")]);
    let empty = handle_parameters(true, true, &Vec::new(), &Vec::new()).unwrap();
    assert_eq!(empty.body, Body::Multipart(Vec::new()));
}

#[test]
fn what_was_read_can_be_copied() {
    assert_eq!(Contents::Unread.copy(), Contents::Unread);
    assert_eq!(
        Contents::Text("t".to_string()).copy(),
        Contents::Text("t".to_string())
    );
    assert_eq!(
        Contents::Bytes(vec![1, 2]).copy(),
        Contents::Bytes(vec![1, 2])
    );
}
