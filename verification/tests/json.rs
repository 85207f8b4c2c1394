use pigeon::json::{parse, JsonValue};
use pigeon::schema::{read_request, Field, SchemaError};

fn text(s: &str) -> JsonValue {
    JsonValue::Text(s.to_string())
}

fn record(members: Vec<(&str, JsonValue)>) -> JsonValue {
    JsonValue::Record(members.into_iter().map(|(name, value)| (name.to_string(), value)).collect())
}

fn error_of(document: &JsonValue) -> SchemaError {
    read_request(document).unwrap_err()
}

#[test]
fn scalars_are_read() {
    assert!(matches!(parse("null"), Ok(JsonValue::Null)));
    assert!(matches!(parse("true"), Ok(JsonValue::Bool(true))));
    assert!(matches!(parse(" false "), Ok(JsonValue::Bool(false))));
    match parse("\"a\\nb \\u00e9\"") {
        Ok(JsonValue::Text(s)) => assert_eq!(s, "a\nb \u{e9}"),
        other => panic!("{:?}", other),
    }
}

#[test]
fn numbers_keep_their_text() {
    for (source, shown) in [("0", "0"), ("-12", "-12"), ("18446744073709551615", "18446744073709551615"), ("1.5", "1.5"), ("1e2", "100.0")] {
        match parse(source) {
            Ok(JsonValue::Number(n)) => assert_eq!(n, shown),
            other => panic!("{:?}", other),
        }
    }
}

#[test]
fn lists_keep_their_order() {
    match parse("[1, \"two\", [null], {}]") {
        Ok(JsonValue::List(items)) => {
            assert_eq!(items.len(), 4);
            assert!(matches!(&items[0], JsonValue::Number(n) if n == "1"));
            assert!(matches!(&items[1], JsonValue::Text(s) if s == "two"));
            match &items[2] {
                JsonValue::List(inner) => {
                    assert_eq!(inner.len(), 1);
                    assert!(matches!(inner[0], JsonValue::Null));
                },
                other => panic!("{:?}", other),
            }
            assert!(matches!(&items[3], JsonValue::Record(members) if members.is_empty()));
        },
        other => panic!("{:?}", other),
    }
}

#[test]
fn objects_hold_each_name_once() {
    match parse("{\"b\": 1, \"a\": {\"c\": true}, \"b\": 2}") {
        Ok(JsonValue::Record(members)) => {
            assert_eq!(members.len(), 2);
            let b = members.iter().find(|(name, _)| name == "b").unwrap();
            assert!(matches!(&b.1, JsonValue::Number(n) if n == "2"));
            let a = members.iter().find(|(name, _)| name == "a").unwrap();
            match &a.1 {
                JsonValue::Record(inner) => {
                    assert_eq!(inner.len(), 1);
                    assert_eq!(inner[0].0, "c");
                    assert!(matches!(inner[0].1, JsonValue::Bool(true)));
                },
                other => panic!("{:?}", other),
            }
        },
        other => panic!("{:?}", other),
    }
}

#[test]
fn malformed_text_gives_the_parsers_diagnostic() {
    for source in ["", "{", "{\"a\":}", "[1,]", "nul", "{} x", "\"open", "{\"a\" 1}"] {
        let expected = serde_json::from_str::<serde_json::Value>(source).unwrap_err().to_string();
        match parse(source) {
            Err(diagnostic) => assert_eq!(diagnostic, expected),
            Ok(value) => panic!("{:?}", value),
        }
    }
    assert_eq!(parse("{").unwrap_err(), "EOF while parsing an object at line 1 column 1");
}

#[test]
fn nesting_beyond_the_parsers_limit_is_refused() {
    let deep = "[".repeat(200) + &"]".repeat(200);
    assert!(parse(&deep).is_err());
    let fine = "[".repeat(100) + &"]".repeat(100);
    assert!(parse(&fine).is_ok());
}

#[test]
fn field_names_on_the_wire() {
    assert_eq!(Field::Method.as_str(), "method");
    assert_eq!(Field::Url.as_str(), "url");
    assert_eq!(Field::Headers.as_str(), "headers");
    assert_eq!(Field::Key.as_str(), "key");
    assert_eq!(Field::Value.as_str(), "value");
    assert_eq!(Field::Enabled.as_str(), "enabled");
    assert_eq!(Field::Body.as_str(), "body");
    assert_eq!(Field::ContentType.as_str(), "contentType");
    assert_eq!(Field::Content.as_str(), "content");
}

#[test]
fn schema_diagnostics() {
    assert_eq!(SchemaError::NotAnObject.describe(), "expected a JSON object");
    assert_eq!(SchemaError::Missing(Field::Url).describe(), "missing field `url`");
    assert_eq!(
        SchemaError::Invalid(Field::ContentType).describe(),
        "invalid type for field `contentType`"
    );
}

#[test]
fn a_full_description_is_read() {
    let document = parse(
        "{\"method\":\"POST\",\"url\":\"http://example.test/x\",\"headers\":[{\"key\":\"A\",\"value\":\"1\",\"enabled\":false},{\"key\":\"B\",\"value\":\"2\"}],\"body\":{\"contentType\":\"text/plain\",\"content\":\"hi\"},\"extra\":[1,2]}",
    )
    .unwrap();
    let request = read_request(&document).unwrap();
    assert_eq!(request.method, "POST");
    assert_eq!(request.url, "http://example.test/x");
    assert_eq!(request.headers.len(), 2);
    assert_eq!(request.headers[0].key, "A");
    assert_eq!(request.headers[0].value, "1");
    assert!(!request.headers[0].enabled);
    assert_eq!(request.headers[1].key, "B");
    assert_eq!(request.headers[1].value, "2");
    assert!(request.headers[1].enabled);
    let body = request.body.unwrap();
    assert_eq!(body.content_type, "text/plain");
    assert_eq!(body.content, "hi");
}

#[test]
fn what_is_left_out_takes_its_default() {
    let request = read_request(&record(vec![("url", text("u"))])).unwrap();
    assert_eq!(request.method, "");
    assert_eq!(request.url, "u");
    assert!(request.headers.is_empty());
    assert!(request.body.is_none());

    let with_null_body = record(vec![("url", text("u")), ("body", JsonValue::Null)]);
    assert!(read_request(&with_null_body).unwrap().body.is_none());

    let with_empty_body = record(vec![("url", text("u")), ("body", record(vec![]))]);
    let body = read_request(&with_empty_body).unwrap().body.unwrap();
    assert_eq!(body.content_type, "");
    assert_eq!(body.content, "");
}

#[test]
fn the_first_member_of_a_name_counts() {
    let document = JsonValue::Record(vec![
        ("url".to_string(), text("first")),
        ("url".to_string(), JsonValue::Null),
    ]);
    assert_eq!(read_request(&document).unwrap().url, "first");
}

#[test]
fn documents_that_are_no_object_are_refused() {
    assert_eq!(error_of(&JsonValue::Null), SchemaError::NotAnObject);
    assert_eq!(error_of(&text("GET")), SchemaError::NotAnObject);
    assert_eq!(error_of(&JsonValue::List(vec![])), SchemaError::NotAnObject);
    assert_eq!(error_of(&JsonValue::Number("1".to_string())), SchemaError::NotAnObject);
    assert_eq!(error_of(&JsonValue::Bool(true)), SchemaError::NotAnObject);
}

#[test]
fn members_of_the_wrong_type_are_refused() {
    let url = ("url", text("u"));
    assert_eq!(error_of(&record(vec![])), SchemaError::Missing(Field::Url));
    assert_eq!(
        error_of(&record(vec![("method", JsonValue::Null), ("url", text("u"))])),
        SchemaError::Invalid(Field::Method)
    );
    assert_eq!(
        error_of(&record(vec![("url", JsonValue::Number("1".to_string()))])),
        SchemaError::Invalid(Field::Url)
    );
    assert_eq!(
        error_of(&record(vec![url.clone_pair(), ("headers", JsonValue::Null)])),
        SchemaError::Invalid(Field::Headers)
    );
    assert_eq!(
        error_of(&record(vec![url.clone_pair(), ("headers", record(vec![]))])),
        SchemaError::Invalid(Field::Headers)
    );
    assert_eq!(
        error_of(&record(vec![url.clone_pair(), ("headers", JsonValue::List(vec![text("A: 1")]))])),
        SchemaError::Invalid(Field::Headers)
    );
    assert_eq!(
        error_of(&record(vec![url.clone_pair(), ("body", text("raw"))])),
        SchemaError::Invalid(Field::Body)
    );
    assert_eq!(
        error_of(&record(vec![
            url.clone_pair(),
            ("body", record(vec![("contentType", JsonValue::Null)])),
        ])),
        SchemaError::Invalid(Field::ContentType)
    );
    assert_eq!(
        error_of(&record(vec![
            url.clone_pair(),
            ("body", record(vec![("content", JsonValue::Bool(false))])),
        ])),
        SchemaError::Invalid(Field::Content)
    );
}

#[test]
fn headers_are_checked_in_order() {
    let good = record(vec![("key", text("A")), ("value", text("1"))]);
    let no_key = record(vec![("value", text("1"))]);
    let no_value = record(vec![("key", text("A"))]);
    let odd_flag = record(vec![("key", text("A")), ("value", text("1")), ("enabled", text("yes"))]);
    let odd_key = record(vec![("key", JsonValue::Bool(true)), ("enabled", text("yes"))]);
    let cases = vec![
        (vec![no_key.copy()], SchemaError::Missing(Field::Key)),
        (vec![no_value.copy()], SchemaError::Missing(Field::Value)),
        (vec![odd_flag.copy()], SchemaError::Invalid(Field::Enabled)),
        (vec![odd_key.copy()], SchemaError::Invalid(Field::Key)),
        (vec![good.copy(), no_value.copy(), no_key.copy()], SchemaError::Missing(Field::Value)),
        (vec![good.copy(), good.copy(), odd_flag.copy()], SchemaError::Invalid(Field::Enabled)),
    ];
    for (headers, expected) in cases {
        let document = record(vec![("url", text("u")), ("headers", JsonValue::List(headers))]);
        assert_eq!(error_of(&document), expected);
    }
}

#[test]
fn members_are_checked_in_the_order_of_the_schema() {
    let document = record(vec![
        ("body", text("raw")),
        ("headers", JsonValue::Null),
        ("url", JsonValue::Null),
        ("method", JsonValue::Null),
    ]);
    assert_eq!(error_of(&document), SchemaError::Invalid(Field::Method));
    let document = record(vec![("body", text("raw")), ("headers", JsonValue::Null)]);
    assert_eq!(error_of(&document), SchemaError::Missing(Field::Url));
    let document =
        record(vec![("body", text("raw")), ("headers", JsonValue::Null), ("url", text("u"))]);
    assert_eq!(error_of(&document), SchemaError::Invalid(Field::Headers));
}

trait Copies {
    fn copy(&self) -> JsonValue;
}

impl Copies for JsonValue {
    fn copy(&self) -> JsonValue {
        match self {
            JsonValue::Null => JsonValue::Null,
            JsonValue::Bool(b) => JsonValue::Bool(*b),
            JsonValue::Number(n) => JsonValue::Number(n.clone()),
            JsonValue::Text(s) => JsonValue::Text(s.clone()),
            JsonValue::List(items) => JsonValue::List(items.iter().map(|v| v.copy()).collect()),
            JsonValue::Record(members) => JsonValue::Record(
                members.iter().map(|(name, value)| (name.clone(), value.copy())).collect(),
            ),
        }
    }
}

trait ClonePair {
    fn clone_pair(&self) -> (&'static str, JsonValue);
}

impl ClonePair for (&'static str, JsonValue) {
    fn clone_pair(&self) -> (&'static str, JsonValue) {
        (self.0, self.1.copy())
    }
}
