use workbench::hurl::app::{App, Method, MethodData};
use workbench::hurl::config::{config_file, Config};
use workbench::hurl::directories::Directories;
use workbench::hurl::errors::{Error, JsonCategory};
use workbench::hurl::params::Parameter;
use workbench::hurl::paths::make_safe_pathname;

fn plain_options() -> App {
    App {
        quiet: false,
        verbose: 0,
        form: false,
        auth: None,
        token: None,
        secure: false,
        cmd: None,
        url: None,
        parameters: Vec::new(),
        config: None,
        session: None,
        session_dir: None,
        read_only: false,
    }
}

fn request(url: &str) -> MethodData {
    MethodData {
        url: url.to_string(),
        parameters: vec![Parameter::Query {
            key: "q".to_string(),
            value: "1".to_string(),
        }],
    }
}

fn alice() -> Directories {
    Directories::under(Some("/home/alice/.config".to_string())).unwrap()
}

#[test]
fn options_without_url_and_method_are_refused() {
    let mut options = plain_options();
    assert_eq!(options.validate(), Err(Error::MissingUrlAndCommand));
    options.url = Some("example.com".to_string());
    assert_eq!(options.validate(), Ok(()));
    options.url = None;
    options.cmd = Some(Method::GET(request("example.com")));
    assert_eq!(options.validate(), Ok(()));
    options.url = Some("example.org".to_string());
    assert_eq!(options.validate(), Ok(()));
    assert_eq!(options.url.as_deref(), Some("example.org"));
}

#[test]
fn the_log_level_follows_the_verbosity() {
    let mut options = plain_options();
    let expected = [
        None,
        Some("error"),
        Some("warn"),
        Some("info"),
        Some("debug"),
        Some("trace"),
        Some("trace"),
    ];
    for (verbose, level) in expected.iter().enumerate() {
        options.verbose = verbose as u8;
        assert_eq!(options.log_level(), *level);
    }
    options.verbose = 255;
    assert_eq!(options.log_level(), Some("trace"));
    options.quiet = true;
    for verbose in [0u8, 1, 3, 255] {
        options.verbose = verbose;
        assert_eq!(options.log_level(), None);
    }
}

#[test]
fn the_configuration_fills_what_the_command_line_left_open() {
    let mut options = plain_options();
    options.process_config_file(Some(Config {
        verbose: Some(3),
        form: Some(true),
        auth: Some("user:pw".to_string()),
        token: Some("tok".to_string()),
        secure: Some(true),
    }));
    assert_eq!(options.verbose, 3);
    assert!(options.form);
    assert!(options.secure);
    assert_eq!(options.auth.as_deref(), Some("user:pw"));
    assert_eq!(options.token.as_deref(), Some("tok"));
}

#[test]
fn the_command_line_wins_over_the_configuration() {
    let mut options = plain_options();
    options.verbose = 1;
    options.form = true;
    options.secure = true;
    options.auth = Some("me".to_string());
    options.token = Some("mine".to_string());
    options.process_config_file(Some(Config {
        verbose: Some(5),
        form: Some(false),
        auth: Some("other".to_string()),
        token: Some("theirs".to_string()),
        secure: Some(false),
    }));
    assert_eq!(options.verbose, 1);
    assert!(options.form);
    assert!(options.secure);
    assert_eq!(options.auth.as_deref(), Some("me"));
    assert_eq!(options.token.as_deref(), Some("mine"));
}

#[test]
fn keys_that_the_configuration_lacks_change_nothing() {
    let mut options = plain_options();
    options.auth = Some("me".to_string());
    options.process_config_file(Some(Config {
        verbose: None,
        form: None,
        auth: None,
        token: None,
        secure: None,
    }));
    assert_eq!(options.verbose, 0);
    assert!(!options.form);
    assert!(!options.secure);
    assert_eq!(options.auth.as_deref(), Some("me"));
    assert_eq!(options.token, None);
    options.process_config_file(None);
    assert_eq!(options.verbose, 0);
    assert_eq!(options.auth.as_deref(), Some("me"));
}

#[test]
fn the_host_is_the_url_made_safe() {
    let mut options = plain_options();
    options.url = Some("https://example.com/a?b=1".to_string());
    assert_eq!(options.host(), "https___example_com_a_b_1");
    options.cmd = Some(Method::POST(request("other.org")));
    assert_eq!(options.host(), "https___example_com_a_b_1");
    options.url = None;
    assert_eq!(options.host(), "other_org");
}

#[test]
fn a_method_has_its_name_and_its_request() {
    let methods = [
        (Method::HEAD(request("h")), "HEAD"),
        (Method::GET(request("g")), "GET"),
        (Method::PUT(request("p")), "PUT"),
        (Method::POST(request("o")), "POST"),
        (Method::PATCH(request("a")), "PATCH"),
        (Method::DELETE(request("d")), "DELETE"),
    ];
    for (method, name) in methods.iter() {
        assert_eq!(method.name(), *name);
        assert_eq!(method.data().parameters.len(), 1);
    }
    assert_eq!(methods[0].0.data().url, "h");
    assert_eq!(methods[5].0.data().url, "d");
}

#[test]
fn safe_names_keep_letters_digits_and_a_few_signs() {
    assert_eq!(make_safe_pathname("abcXYZ019_- "), "abcXYZ019_- ");
    assert_eq!(make_safe_pathname("a/b\\c:d.e"), "a_b_c_d_e");
    assert_eq!(make_safe_pathname(""), "");
    assert_eq!(make_safe_pathname("grüße"), "gr__e");
    assert_eq!(make_safe_pathname("`{@[/:"), "______");
}

#[test]
fn the_directories_lie_under_the_configuration_directory() {
    assert!(Directories::under(None).is_none());
    assert_eq!(alice().config(), "/home/alice/.config/hurl");
    if let Some(found) = Directories::new() {
        assert!(found.config().ends_with("hurl"));
    }
}

#[test]
fn the_configuration_file_is_the_named_one_if_it_is_a_file() {
    let mut options = plain_options();
    assert_eq!(
        config_file(&options, false, &alice()),
        "/home/alice/.config/hurl/config"
    );
    assert_eq!(
        config_file(&options, true, &alice()),
        "/home/alice/.config/hurl/config"
    );
    options.config = Some("/etc/hurl.toml".to_string());
    assert_eq!(config_file(&options, true, &alice()), "/etc/hurl.toml");
    assert_eq!(
        config_file(&options, false, &alice()),
        "/home/alice/.config/hurl/config"
    );
}

#[test]
fn errors_have_their_messages() {
    assert_eq!(
        Error::ParameterMissingSeparator("abc".to_string()).message(),
        "Missing separator when parsing parameter: abc"
    );
    assert_eq!(
        Error::MissingUrlAndCommand.message(),
        "Must specify a url or a command"
    );
    assert_eq!(
        Error::NotFormButHasFormFile.message(),
        "Cannot have a form file 'key@filename' unless --form option is set"
    );
    assert_eq!(
        Error::ClientSerialization.message(),
        "Serializing the request/response failed"
    );
    assert_eq!(Error::ClientTimeout.message(), "Timeout during request");
    assert_eq!(Error::ClientWithStatus(404).message(), "Got status code: 404");
    assert_eq!(Error::ClientWithStatus(0).message(), "Got status code: 0");
    assert_eq!(Error::ClientOther.message(), "Unknown client error");
    assert_eq!(
        Error::SerdeJson(JsonCategory::Syntax).message(),
        "JSON error: Syntax"
    );
    assert_eq!(Error::SerdeJson(JsonCategory::Io).message(), "JSON error: Io");
    assert_eq!(Error::SerdeJson(JsonCategory::Data).message(), "JSON error: Data");
    assert_eq!(Error::SerdeJson(JsonCategory::Eof).message(), "JSON error: Eof");
    assert_eq!(
        Error::IO("NotFound".to_string()).message(),
        "IO Error: NotFound"
    );
    assert_eq!(
        Error::UrlParseError("empty host".to_string()).message(),
        "URL Parsing Error: empty host"
    );
}

#[test]
fn a_failure_of_the_client_becomes_an_error() {
    assert_eq!(
        Error::from_client(true, true, Some(500)),
        Error::ClientSerialization
    );
    assert_eq!(Error::from_client(false, true, Some(500)), Error::ClientTimeout);
    assert_eq!(
        Error::from_client(false, false, Some(503)),
        Error::ClientWithStatus(503)
    );
    assert_eq!(Error::from_client(false, false, None), Error::ClientOther);
    assert_eq!(Error::from_client(true, false, None), Error::ClientSerialization);
}
