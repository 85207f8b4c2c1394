use pigeon::executor::Outcome;
use pigeon::gateway::{
    accept, begin, boundary_text, contains_nul, fault_payload, json_error, respond, InputError, Step,
    FALLBACK,
};
use pigeon::schema::{Field, SchemaError};

fn failure_text(body: &str) -> String {
    format!(
        "{{\"status\":0,\"statusText\":\"Error\",\"headers\":[],\"body\":{},\"durationMs\":0}}",
        serde_json::to_string(body).unwrap()
    )
}

fn refusal(input: Option<&[u8]>) -> String {
    match begin(input) {
        Step::Reply(payload) => payload,
        Step::Send(out) => panic!("{:?}", out),
    }
}

fn body_of(payload: &str) -> String {
    let value: serde_json::Value = serde_json::from_str(payload).unwrap();
    assert_eq!(value["status"].as_u64(), Some(0));
    assert_eq!(value["statusText"].as_str(), Some("Error"));
    assert_eq!(value["headers"].as_array().map(|h| h.len()), Some(0));
    assert_eq!(value["durationMs"].as_u64(), Some(0));
    value["body"].as_str().unwrap().to_string()
}

#[test]
fn error_payload_is_a_failure_response() {
    assert_eq!(
        json_error("req_json is null"),
        "{\"status\":0,\"statusText\":\"Error\",\"headers\":[],\"body\":\"req_json is null\",\"durationMs\":0}"
    );
    assert_eq!(json_error("a \"b\"\n"), failure_text("a \"b\"\n"));
    assert_eq!(body_of(&json_error("x\0y")), "x\0y");
}

#[test]
fn no_input_is_refused() {
    assert_eq!(refusal(None), failure_text("req_json is null"));
    assert!(matches!(accept(None), Err(InputError::Null)));
    assert_eq!(InputError::Null.describe(), "req_json is null");
}

#[test]
fn bytes_that_are_no_utf8_are_refused() {
    assert_eq!(
        refusal(Some(&[0xff, b'{', b'}'])),
        failure_text("invalid utf-8: invalid utf-8 sequence of 1 bytes from index 0")
    );
    assert_eq!(
        refusal(Some(&[b'{', b'}', 0xe2, 0x82])),
        failure_text("invalid utf-8: incomplete utf-8 byte sequence from index 2")
    );
    let surrogate = [b'"', 0xed, 0xa0, 0x80, b'"'];
    let expected = std::str::from_utf8(&surrogate).unwrap_err().to_string();
    assert_eq!(body_of(&refusal(Some(&surrogate))), format!("invalid utf-8: {}", expected));
}

#[test]
fn malformed_json_is_refused_with_a_diagnostic() {
    let input = "{\"method\":\"GET\",\"url\":";
    let payload = refusal(Some(input.as_bytes()));
    let diagnostic = serde_json::from_str::<serde_json::Value>(input).unwrap_err().to_string();
    assert_eq!(payload, failure_text(&format!("invalid json: {}", diagnostic)));
    let body = body_of(&payload);
    assert!(body.starts_with("invalid json: "));
    assert!(body.contains("line 1 column"));
    assert_eq!(body_of(&refusal(Some(b""))), "invalid json: EOF while parsing a value at line 1 column 0");
    assert_eq!(body_of(&refusal(Some(b"not json"))), "invalid json: expected ident at line 1 column 2");
}

#[test]
fn json_that_is_no_request_is_refused() {
    assert_eq!(body_of(&refusal(Some(b"[]"))), "invalid json: expected a JSON object");
    assert_eq!(body_of(&refusal(Some(b"null"))), "invalid json: expected a JSON object");
    assert_eq!(body_of(&refusal(Some(b"{}"))), "invalid json: missing field `url`");
    assert_eq!(
        body_of(&refusal(Some(b"{\"method\":\"GET\"}"))),
        "invalid json: missing field `url`"
    );
    assert_eq!(
        body_of(&refusal(Some(b"{\"method\":7,\"url\":\"u\"}"))),
        "invalid json: invalid type for field `method`"
    );
    assert_eq!(
        body_of(&refusal(Some(b"{\"url\":\"u\",\"headers\":[{\"key\":\"A\"}]}"))),
        "invalid json: missing field `value`"
    );
    assert_eq!(
        body_of(&refusal(Some(b"{\"url\":\"u\",\"headers\":[{\"key\":\"A\",\"value\":\"1\",\"enabled\":1}]}"))),
        "invalid json: invalid type for field `enabled`"
    );
    assert_eq!(
        body_of(&refusal(Some(b"{\"url\":\"u\",\"body\":{\"content\":null}}"))),
        "invalid json: invalid type for field `content`"
    );
}

#[test]
fn disabled_header_does_not_go_out() {
    let input = "{\"method\":\"GET\",\"url\":\"http://example.test/\",\"headers\":[{\"key\":\"A\",\"value\":\"1\",\"enabled\":false}]}";
    match begin(Some(input.as_bytes())) {
        Step::Send(out) => {
            assert_eq!(out.method, "GET");
            assert_eq!(out.url, "http://example.test/");
            assert!(out.headers.iter().all(|(key, _)| key != "A"));
            assert!(out.headers.is_empty());
            assert_eq!(out.payload, None);
        },
        Step::Reply(payload) => panic!("{}", payload),
    }
}

#[test]
fn a_request_goes_out_as_planned() {
    let input = "{\"method\":\"post\",\"url\":\"http://example.test/items\",\"headers\":[{\"key\":\"A\",\"value\":\"1\"},{\"key\":\"B\",\"value\":\"2\",\"enabled\":false},{\"key\":\"C\",\"value\":\"3\",\"enabled\":true}],\"body\":{\"contentType\":\"application/json\",\"content\":\"{\\\"n\\\":1}\"}}";
    match begin(Some(input.as_bytes())) {
        Step::Send(out) => {
            assert_eq!(out.method, "POST");
            assert_eq!(out.url, "http://example.test/items");
            assert_eq!(
                out.headers,
                vec![
                    ("A".to_string(), "1".to_string()),
                    ("C".to_string(), "3".to_string()),
                    ("Content-Type".to_string(), "application/json".to_string()),
                ]
            );
            assert_eq!(out.payload, Some("{\"n\":1}".to_string()));
        },
        Step::Reply(payload) => panic!("{}", payload),
    }
}

#[test]
fn a_request_without_method_goes_out_as_get() {
    for input in ["{\"url\":\"http://example.test/\"}", "{\"method\":\"\",\"url\":\"http://example.test/\"}", "{\"method\":\"not a verb\",\"url\":\"http://example.test/\"}"] {
        match begin(Some(input.as_bytes())) {
            Step::Send(out) => assert_eq!(out.method, "GET"),
            Step::Reply(payload) => panic!("{}", payload),
        }
    }
}

#[test]
fn accepted_request_is_the_one_described() {
    let request = accept(Some(b"{\"method\":\"put\",\"url\":\"u\",\"body\":null}")).unwrap();
    assert_eq!(request.method, "put");
    assert_eq!(request.url, "u");
    assert!(request.headers.is_empty());
    assert!(request.body.is_none());
}

#[test]
fn an_answer_is_reported() {
    let outcome = Outcome::Answered {
        status: 201,
        status_text: "201 Created".to_string(),
        headers: vec![("location".to_string(), "/items/1".to_string())],
        body: "{\"id\":1}".to_string(),
    };
    assert_eq!(
        respond(outcome, 12),
        "{\"status\":201,\"statusText\":\"201 Created\",\"headers\":[[\"location\",\"/items/1\"]],\"body\":\"{\\\"id\\\":1}\",\"durationMs\":12}"
    );
}

#[test]
fn a_failed_transport_is_reported() {
    let payload = respond(Outcome::Failed { reason: "dns error".to_string() }, 3000);
    assert_eq!(
        payload,
        "{\"status\":0,\"statusText\":\"Error\",\"headers\":[],\"body\":\"request failed: dns error\",\"durationMs\":3000}"
    );
}

#[test]
fn a_fault_is_reported() {
    assert_eq!(fault_payload(), failure_text("panic in pigeon_send_request"));
}

#[test]
fn every_payload_is_a_response() {
    let payloads = vec![
        refusal(None),
        refusal(Some(&[0x80])),
        refusal(Some(b"{")),
        refusal(Some(b"{}")),
        fault_payload(),
        respond(Outcome::Failed { reason: "\0\u{1}\"".to_string() }, 1),
        respond(
            Outcome::Answered {
                status: 200,
                status_text: "200 OK".to_string(),
                headers: vec![("a".to_string(), "\0".to_string())],
                body: "\0".to_string(),
            },
            2,
        ),
    ];
    for payload in payloads {
        assert!(!contains_nul(&payload));
        assert_eq!(boundary_text(payload.clone()), payload);
        let value: serde_json::Value = serde_json::from_str(&payload).unwrap();
        let members = value.as_object().unwrap();
        assert_eq!(members.len(), 5);
        assert!(members["status"].is_u64());
        assert!(members["statusText"].is_string());
        assert!(members["headers"].is_array());
        assert!(members["body"].is_string());
        assert!(members["durationMs"].is_u64());
        let failed = members["status"].as_u64() == Some(0);
        assert_eq!(failed, members["statusText"].as_str() == Some("Error"));
    }
}

#[test]
fn nul_is_found_wherever_it_stands() {
    assert!(!contains_nul(""));
    assert!(!contains_nul("plain \u{1} text"));
    assert!(contains_nul("\0"));
    assert!(contains_nul("\0start"));
    assert!(contains_nul("mid\0dle"));
    assert!(contains_nul("end\0"));
}

#[test]
fn text_with_a_nul_does_not_cross_the_boundary() {
    assert_eq!(boundary_text("{\"ok\":true}".to_string()), "{\"ok\":true}");
    assert_eq!(boundary_text(String::new()), "");
    assert_eq!(
        boundary_text("a\0b".to_string()),
        "{\"status\":0,\"statusText\":\"Error\",\"headers\":[],\"body\":\"Invalid string (interior NUL)\",\"durationMs\":0}"
    );
    assert!(!boundary_text("\0".to_string()).as_bytes().contains(&0));
}

#[test]
fn refusals_by_kind() {
    match accept(Some(&[b'a', 0xc3])) {
        Err(InputError::NotUtf8 { fault }) => {
            assert_eq!(fault, "incomplete utf-8 byte sequence from index 1")
        },
        other => panic!("{:?}", other),
    }
    match accept(Some(b"[1,")) {
        Err(e @ InputError::NotJson { .. }) => {
            assert_eq!(e.describe(), "invalid json: EOF while parsing a value at line 1 column 3")
        },
        other => panic!("{:?}", other),
    }
    match accept(Some(b"{\"url\":1}")) {
        Err(e @ InputError::NotRequest(SchemaError::Invalid(Field::Url))) => {
            assert_eq!(e.describe(), "invalid json: invalid type for field `url`")
        },
        other => panic!("{:?}", other),
    }
}

#[test]
fn the_payload_of_last_resort_is_a_failure_response() {
    assert_eq!(FALLBACK, json_error("serialization error"));
    assert!(!contains_nul(FALLBACK));
}
