use oci_runtime::json::Json;

#[test]
fn renders_scalars_exactly() {
    assert_eq!(Json::Null.to_text(), "null");
    assert_eq!(Json::Bool(true).to_text(), "true");
    assert_eq!(Json::Bool(false).to_text(), "false");
    assert_eq!(Json::Int(0).to_text(), "0");
    assert_eq!(Json::Int(-1).to_text(), "-1");
    assert_eq!(Json::Int(1234567890).to_text(), "1234567890");
    assert_eq!(Json::Int(i64::MIN).to_text(), "-9223372036854775808");
    assert_eq!(Json::Int(i64::MAX).to_text(), "9223372036854775807");
    assert_eq!(Json::Text("ab".to_string()).to_text(), "\"ab\"");
}

#[test]
fn renders_escapes_exactly() {
    let t = Json::Text("a\"b\\c\nd\te\u{8}f\u{c}g\rh\u{1}i".to_string());
    assert_eq!(
        t.to_text(),
        "\"a\\\"b\\\\c\\nd\\te\\bf\\fg\\rh\\u0001i\""
    );
}

#[test]
fn renders_arrays_and_objects_exactly() {
    let arr = Json::Arr(vec![Json::Int(1), Json::Int(2), Json::Null]);
    assert_eq!(arr.to_text(), "[1,2,null]");
    assert_eq!(Json::Arr(vec![]).to_text(), "[]");
    let obj = Json::Obj(vec![
        ("a".to_string(), Json::Int(1)),
        ("b".to_string(), Json::Arr(vec![Json::Bool(false)])),
    ]);
    assert_eq!(obj.to_text(), "{\"a\":1,\"b\":[false]}");
    assert_eq!(Json::Obj(vec![]).to_text(), "{}");
}

#[test]
fn parses_documents_with_whitespace() {
    let j = Json::parse_text(" { \"a\" : [ 1 , -2 , \"x\" ] , \"b\" : null } ").unwrap();
    assert_eq!(
        j,
        Json::Obj(vec![
            (
                "a".to_string(),
                Json::Arr(vec![
                    Json::Int(1),
                    Json::Int(-2),
                    Json::Text("x".to_string())
                ])
            ),
            ("b".to_string(), Json::Null),
        ])
    );
}

#[test]
fn parses_escapes_back() {
    let j = Json::parse_text("\"a\\\"b\\\\c\\nd\\u0041e\\u00e9\"").unwrap();
    assert_eq!(j, Json::Text("a\"b\\c\ndAe\u{e9}".to_string()));
}

#[test]
fn round_trips_rendered_documents() {
    let doc = Json::Obj(vec![
        ("text".to_string(), Json::Text("with \"quotes\"\n".to_string())),
        ("num".to_string(), Json::Int(-42)),
        (
            "list".to_string(),
            Json::Arr(vec![Json::Bool(true), Json::Text(String::new())]),
        ),
        ("empty".to_string(), Json::Obj(vec![])),
    ]);
    let text = doc.to_text();
    assert_eq!(Json::parse_text(&text).unwrap(), doc);
}

#[test]
fn rejects_malformed_documents() {
    assert!(Json::parse_text("").is_err());
    assert!(Json::parse_text("{").is_err());
    assert!(Json::parse_text("[1,]").is_err());
    assert!(Json::parse_text("{\"a\"}").is_err());
    assert!(Json::parse_text("{\"a\":1,}").is_err());
    assert!(Json::parse_text("nul").is_err());
    assert!(Json::parse_text("01a").is_err());
    assert!(Json::parse_text("1.5").is_err());
    assert!(Json::parse_text("\"unterminated").is_err());
    assert!(Json::parse_text("\"bad\\q\"").is_err());
    assert!(Json::parse_text("1 2").is_err());
    assert!(Json::parse_text("9223372036854775808").is_err());
}

#[test]
fn parses_extreme_integers() {
    assert_eq!(
        Json::parse_text("-9223372036854775808").unwrap(),
        Json::Int(i64::MIN)
    );
    assert_eq!(
        Json::parse_text("9223372036854775807").unwrap(),
        Json::Int(i64::MAX)
    );
}

#[test]
fn parses_basic_plane_unicode_escapes() {
    assert_eq!(
        Json::parse_text("\"\\u4e2d\\u6587\"").unwrap(),
        Json::Text("\u{4e2d}\u{6587}".to_string())
    );
    assert_eq!(
        Json::parse_text("\"\\uFFFD\"").unwrap(),
        Json::Text("\u{fffd}".to_string())
    );
}

#[test]
fn rejects_surrogate_unicode_escapes() {
    assert!(Json::parse_text("\"\\ud800\"").is_err());
    assert!(Json::parse_text("\"\\uDFFF\"").is_err());
}

#[test]
fn parses_surrogate_pair_escapes() {
    assert_eq!(
        Json::parse_text("\"\\ud83d\\ude00\"").unwrap(),
        Json::Text("\u{1f600}".to_string())
    );
    assert_eq!(
        Json::parse_text("\"a\\uD801\\uDC37b\"").unwrap(),
        Json::Text("a\u{10437}b".to_string())
    );
    // a high surrogate must be followed by a low-surrogate escape
    assert!(Json::parse_text("\"\\ud83d\"").is_err());
    assert!(Json::parse_text("\"\\ud83dx\"").is_err());
    assert!(Json::parse_text("\"\\ud83d\\u0041\"").is_err());
}
