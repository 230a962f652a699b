use workbench::hurl::errors::{Error, JsonCategory};
use workbench::hurl::response::{render_body, rendered, response_head, text_before, Rendered};

fn response_header(key: &str, value: Option<&str>) -> (String, Option<String>) {
    (key.to_string(), value.map(|v| v.to_string()))
}

fn chars(s: &str) -> Vec<char> {
    s.chars().collect()
}

#[test]
fn the_head_shows_status_and_headers_in_order() {
    let headers = vec![
        response_header("x-request-id", None),
        response_header("server", Some("nginx")),
        response_header("content-type", Some("application/json")),
    ];
    assert_eq!(
        response_head("HTTP/1.1", 200, Some("OK"), &headers, None, "{}"),
        "HTTP/1.1 200 OK\n\
         Content-Type: application/json\n\
         Content-length: 2\n\
         Server: nginx\n\
         X-Request-Id: BAD HEADER VALUE"
    );
}

#[test]
fn the_stated_length_wins_over_the_length_of_the_body() {
    assert_eq!(
        response_head("HTTP/2.0", 404, None, &Vec::new(), Some(1234), "ignored"),
        "HTTP/2.0 404 Unknown\nContent-length: 1234"
    );
    assert_eq!(
        response_head("HTTP/1.0", 204, Some("No Content"), &Vec::new(), None, ""),
        "HTTP/1.0 204 No Content\nContent-length: 0"
    );
    assert_eq!(
        response_head("HTTP/1.1", 200, Some("OK"), &Vec::new(), None, "grüße"),
        "HTTP/1.1 200 OK\nContent-length: 7"
    );
}

#[test]
fn header_names_get_capitals_and_hyphens() {
    let headers = vec![
        response_header("etag", Some("\"abc\"")),
        response_header("x_forwarded_for", Some("::1")),
        response_header("WWW-Authenticate", Some("Basic")),
        response_header("accept-ranges", Some("")),
    ];
    assert_eq!(
        response_head("HTTP/1.1", 301, Some("Moved Permanently"), &headers, Some(0), ""),
        "HTTP/1.1 301 Moved Permanently\n\
         Accept-Ranges: \n\
         Content-length: 0\n\
         Etag: \"abc\"\n\
         Www-Authenticate: Basic\n\
         X-Forwarded-For: ::1"
    );
}

#[test]
fn equal_lines_are_all_shown() {
    let headers = vec![
        response_header("set-cookie", Some("b=2")),
        response_header("set-cookie", Some("a=1")),
        response_header("set-cookie", Some("b=2")),
    ];
    assert_eq!(
        response_head("HTTP/1.1", 200, Some("OK"), &headers, Some(5), ""),
        "HTTP/1.1 200 OK\n\
         Content-length: 5\n\
         Set-Cookie: a=1\n\
         Set-Cookie: b=2\n\
         Set-Cookie: b=2"
    );
}

#[test]
fn texts_are_ordered_as_strings_are() {
    let texts = ["", "a", "A", "ab", "b", "Z", "a b", "é", "z", "aa", "~", "ａ"];
    for a in texts {
        for b in texts {
            assert_eq!(text_before(&chars(a), &chars(b)), a <= b, "{:?} {:?}", a, b);
        }
    }
}

#[test]
fn a_json_object_is_laid_out_with_its_keys_in_order() {
    assert_eq!(
        render_body("{\"b\":1,\"a\":[true,null]}"),
        Ok(Rendered {
            json: true,
            text: "{\n  \"a\": [\n    true,\n    null\n  ],\n  \"b\": 1\n}".to_string()
        })
    );
    assert_eq!(
        render_body(" {} "),
        Ok(Rendered {
            json: true,
            text: "{}".to_string()
        })
    );
}

#[test]
fn any_other_body_is_shown_as_it_is() {
    for body in ["<html></html>", "", "[1, 2]", "\"text\"", "{\"a\": }", "{\"a\":1} x"] {
        assert_eq!(
            render_body(body),
            Ok(Rendered {
                json: false,
                text: body.to_string()
            })
        );
    }
}

#[test]
fn the_layout_decides_how_a_body_is_shown() {
    assert_eq!(
        rendered("raw", None),
        Ok(Rendered {
            json: false,
            text: "raw".to_string()
        })
    );
    assert_eq!(
        rendered("{}", Some(Ok("{ }".to_string()))),
        Ok(Rendered {
            json: true,
            text: "{ }".to_string()
        })
    );
    assert_eq!(
        rendered("{}", Some(Err(JsonCategory::Data))),
        Err(Error::SerdeJson(JsonCategory::Data))
    );
}
