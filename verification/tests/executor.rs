use pigeon::executor::{blank, compose, conclude, elapsed_ms, plan, to_ascii_upper, verb, Outcome};
use pigeon::model::{Body, Header, Request};

fn header(key: &str, value: &str, enabled: bool) -> Header {
    Header { key: key.to_string(), value: value.to_string(), enabled }
}

fn request(method: &str, headers: Vec<Header>, body: Option<Body>) -> Request {
    Request { method: method.to_string(), url: "http://example.test/".to_string(), headers, body }
}

fn pair(key: &str, value: &str) -> (String, String) {
    (key.to_string(), value.to_string())
}

#[test]
fn upper_case_touches_ascii_letters_only() {
    assert_eq!(to_ascii_upper(""), "");
    assert_eq!(to_ascii_upper("get"), "GET");
    assert_eq!(to_ascii_upper("Patch-2"), "PATCH-2");
    assert_eq!(to_ascii_upper("az AZ `{ @["), "AZ AZ `{ @[");
    assert_eq!(to_ascii_upper("gr\u{fc}\u{df}e"), "GR\u{fc}\u{df}E");
    assert_eq!(to_ascii_upper("abc"), "abc".to_ascii_uppercase());
}

#[test]
fn known_verbs_go_out_in_upper_case() {
    assert_eq!(verb("GET"), "GET");
    assert_eq!(verb("get"), "GET");
    assert_eq!(verb("Post"), "POST");
    assert_eq!(verb("delete"), "DELETE");
    assert_eq!(verb("pAtCh"), "PATCH");
    assert_eq!(verb("options"), "OPTIONS");
}

#[test]
fn other_tokens_are_verbs_too() {
    assert_eq!(verb("purge"), "PURGE");
    assert_eq!(verb("M-SEARCH"), "M-SEARCH");
    assert_eq!(verb("a!#$%&'*+-.^_`|~9"), "A!#$%&'*+-.^_`|~9");
    assert_eq!(verb("averyveryverylongmethodname"), "AVERYVERYVERYLONGMETHODNAME");
}

#[test]
fn what_is_no_verb_falls_back_to_get() {
    assert_eq!(verb(""), "GET");
    assert_eq!(verb(" "), "GET");
    assert_eq!(verb("GET "), "GET");
    assert_eq!(verb("PO ST"), "GET");
    assert_eq!(verb("po/st"), "GET");
    assert_eq!(verb("p\u{f6}st"), "GET");
    assert_eq!(verb("a(b)"), "GET");
    assert_eq!(verb("put\n"), "GET");
    assert_eq!(verb("\0"), "GET");
}

#[test]
fn a_verb_is_a_method_to_the_transport() {
    for method in ["get", "purge", "x y", "", "p\u{f6}st", "M-SEARCH"] {
        let parsed = reqwest::Method::from_bytes(verb(method).as_bytes()).unwrap();
        assert_eq!(parsed.as_str(), verb(method));
    }
}

#[test]
fn blank_means_white_space_only() {
    assert!(blank(""));
    assert!(blank(" "));
    assert!(blank(" \t\r\n"));
    assert!(blank("\u{a0}\u{2003}\u{3000}"));
    assert!(!blank("a"));
    assert!(!blank("  a  "));
    assert!(!blank("\u{200b}"));
    assert!(!blank(" \0 "));
    for text in ["", "  ", "\t x", "\u{85}", "\u{feff}", "text/plain "] {
        assert_eq!(blank(text), text.trim().is_empty());
    }
}

#[test]
fn disabled_header_is_not_transmitted() {
    let out = plan(&request("GET", vec![header("A", "1", false)], None));
    assert_eq!(out.method, "GET");
    assert_eq!(out.url, "http://example.test/");
    assert!(out.headers.is_empty());
    assert_eq!(out.payload, None);
}

#[test]
fn enabled_headers_go_out_as_written_and_in_order() {
    let out = plan(&request(
        "post",
        vec![
            header("X-First", "1", true),
            header("x-skip", "no", false),
            header("Accept", "*/*", true),
            header("X-First", "again", true),
            header("", "", true),
        ],
        None,
    ));
    assert_eq!(out.method, "POST");
    assert_eq!(
        out.headers,
        vec![pair("X-First", "1"), pair("Accept", "*/*"), pair("X-First", "again"), pair("", "")]
    );
}

#[test]
fn a_disabled_header_changes_nothing_wherever_it_stands() {
    let kept = vec![header("A", "1", true), header("B", "2", true)];
    let expected = plan(&request("GET", kept.clone(), None)).headers;
    for at in 0..=kept.len() {
        let mut headers = kept.clone();
        headers.insert(at, header("A", "1", false));
        assert_eq!(plan(&request("GET", headers, None)).headers, expected);
    }
}

#[test]
fn a_disabled_twin_does_not_hide_an_enabled_header() {
    let out = plan(&request("GET", vec![header("A", "1", false), header("A", "1", true)], None));
    assert_eq!(out.headers, vec![pair("A", "1")]);
}

#[test]
fn body_with_type_and_content() {
    let body = Body { content_type: "application/json".to_string(), content: "{}".to_string() };
    let out = plan(&request("POST", vec![header("A", "1", true)], Some(body)));
    assert_eq!(out.headers, vec![pair("A", "1"), pair("Content-Type", "application/json")]);
    assert_eq!(out.payload, Some("{}".to_string()));
}

#[test]
fn content_type_goes_out_untrimmed() {
    let body = Body { content_type: " text/plain ".to_string(), content: "x".to_string() };
    let out = plan(&request("POST", vec![], Some(body)));
    assert_eq!(out.headers, vec![pair("Content-Type", " text/plain ")]);
}

#[test]
fn blank_content_type_sets_no_header() {
    for content_type in ["", "   ", "\t\n"] {
        let body = Body { content_type: content_type.to_string(), content: "data".to_string() };
        let out = plan(&request("PUT", vec![], Some(body)));
        assert!(out.headers.is_empty());
        assert_eq!(out.payload, Some("data".to_string()));
    }
}

#[test]
fn empty_content_gives_no_payload() {
    let body = Body { content_type: "text/plain".to_string(), content: String::new() };
    let out = plan(&request("POST", vec![], Some(body)));
    assert_eq!(out.headers, vec![pair("Content-Type", "text/plain")]);
    assert_eq!(out.payload, None);
}

#[test]
fn white_space_is_content() {
    let body = Body { content_type: String::new(), content: " ".to_string() };
    let out = plan(&request("POST", vec![], Some(body)));
    assert_eq!(out.payload, Some(" ".to_string()));
}

#[test]
fn compose_takes_verb_and_type_as_given() {
    let body = Body { content_type: "   ".to_string(), content: "x".to_string() };
    let described = request("ignored", vec![header("A", "1", true)], Some(body));
    let out = compose(&described, "QUERY".to_string(), true);
    assert_eq!(out.method, "QUERY");
    assert_eq!(out.headers, vec![pair("A", "1"), pair("Content-Type", "   ")]);
    let out = compose(&described, "QUERY".to_string(), false);
    assert_eq!(out.headers, vec![pair("A", "1")]);
    let bare = request("ignored", vec![], None);
    let out = compose(&bare, "GET".to_string(), true);
    assert!(out.headers.is_empty());
    assert_eq!(out.payload, None);
}

#[test]
fn an_answer_is_reported_as_it_came() {
    let outcome = Outcome::Answered {
        status: 404,
        status_text: "404 Not Found".to_string(),
        headers: vec![pair("server", "test"), pair("server", "test")],
        body: "nope".to_string(),
    };
    let r = conclude(outcome, 17);
    assert_eq!(r.status, 404);
    assert_eq!(r.status_text, "404 Not Found");
    assert_eq!(r.headers, vec![pair("server", "test"), pair("server", "test")]);
    assert_eq!(r.body, "nope");
    assert_eq!(r.duration_ms, 17);
    assert!(!r.is_failure());
}

#[test]
fn a_failed_transport_is_reported_with_its_duration() {
    let r = conclude(Outcome::Failed { reason: "connection refused".to_string() }, 250);
    assert_eq!(r.status, 0);
    assert_eq!(r.status_text, "Error");
    assert!(r.headers.is_empty());
    assert_eq!(r.body, "request failed: connection refused");
    assert_eq!(r.duration_ms, 250);
    assert!(r.is_failure());
}

#[test]
fn elapsed_milliseconds_keep_the_low_64_bits() {
    assert_eq!(elapsed_ms(0), 0);
    assert_eq!(elapsed_ms(1500), 1500);
    assert_eq!(elapsed_ms(u64::MAX as u128), u64::MAX);
    assert_eq!(elapsed_ms((1u128 << 64) + 5), 5);
    assert_eq!(elapsed_ms(u128::MAX), u64::MAX);
}

#[test]
fn an_answer_is_taken_as_the_transport_hands_it_over() {
    let headers = vec![
        ("content-type".to_string(), Some("text/html".to_string())),
        ("x-binary".to_string(), None),
        ("content-type".to_string(), Some(String::new())),
    ];
    match Outcome::answered(200, "200 OK".to_string(), headers, Some("<p>".to_string())) {
        Some(Outcome::Answered { status, status_text, headers, body }) => {
            assert_eq!(status, 200);
            assert_eq!(status_text, "200 OK");
            assert_eq!(
                headers,
                vec![pair("content-type", "text/html"), pair("x-binary", ""), pair("content-type", "")]
            );
            assert_eq!(body, "<p>");
        },
        other => panic!("{:?}", other),
    }
    match Outcome::answered(500, "500 Internal Server Error".to_string(), vec![], None) {
        Some(Outcome::Answered { status, headers, body, .. }) => {
            assert_eq!(status, 500);
            assert!(headers.is_empty());
            assert_eq!(body, "");
        },
        other => panic!("{:?}", other),
    }
    assert!(Outcome::answered(0, "Error".to_string(), vec![], None).is_none());
    assert!(Outcome::answered(1, String::new(), vec![], None).is_some());
}

#[test]
fn white_space_is_the_unicode_property() {
    let listed = |c: char| {
        let code = c as u32;
        (0x9..=0xD).contains(&code)
            || code == 0x20
            || code == 0x85
            || code == 0xA0
            || code == 0x1680
            || (0x2000..=0x200A).contains(&code)
            || code == 0x2028
            || code == 0x2029
            || code == 0x202F
            || code == 0x205F
            || code == 0x3000
    };
    let mut text = String::new();
    for code in 0..=0x10FFFFu32 {
        if let Some(c) = char::from_u32(code) {
            text.clear();
            text.push(c);
            assert_eq!(blank(&text), listed(c), "U+{:04X}", code);
        }
    }
}
