use elastic_exporter::json::{parse_json, to_text, Json};

fn roundtrip(text: &str) -> String {
    let j = parse_json(text).expect("should parse");
    to_text(&j)
}

#[test]
fn parses_scalars() {
    assert!(matches!(parse_json("null"), Some(Json::Null)));
    assert!(matches!(parse_json("true"), Some(Json::Bool(true))));
    assert!(matches!(parse_json("false"), Some(Json::Bool(false))));
    match parse_json("12.5e-3") {
        Some(Json::Num(t)) => assert_eq!(t, "12.5e-3"),
        other => panic!("unexpected: {:?}", other.is_some()),
    }
    match parse_json("\"hi\"") {
        Some(Json::Str(t)) => assert_eq!(t, "hi"),
        _ => panic!("expected string"),
    }
}

#[test]
fn tolerates_whitespace() {
    assert!(parse_json(" {\n\t\"a\" : [ 1 , 2 ] }\r\n").is_some());
}

#[test]
fn rejects_malformed_documents() {
    assert!(parse_json("").is_none());
    assert!(parse_json("{").is_none());
    assert!(parse_json("[1,]").is_none());
    assert!(parse_json("01").is_none());
    assert!(parse_json("1.").is_none());
    assert!(parse_json("-").is_none());
    assert!(parse_json("nul").is_none());
    assert!(parse_json("\"unterminated").is_none());
    assert!(parse_json("{\"a\":1} trailing").is_none());
    // a lone surrogate or bad hex digits are malformed
    assert!(parse_json("\"\\uD800\"").is_none());
    assert!(parse_json("\"\\uDC00x\"").is_none());
    assert!(parse_json("\"\\u00G1\"").is_none());
    assert!(parse_json("\"\\u00\"").is_none());
}

#[test]
fn decodes_unicode_escapes() {
    match parse_json("\"\\u0041\"") {
        Some(Json::Str(t)) => assert_eq!(t, "A"),
        _ => panic!("expected string"),
    }
    match parse_json("\"\\u00e9x\"") {
        Some(Json::Str(t)) => assert_eq!(t, "\u{e9}x"),
        _ => panic!("expected string"),
    }
    // a surrogate pair decodes to one character
    match parse_json("\"\\uD83D\\uDE00\"") {
        Some(Json::Str(t)) => assert_eq!(t, "\u{1F600}"),
        _ => panic!("expected string"),
    }
}

#[test]
fn keeps_number_tokens_exactly() {
    let body = "[0.30000000000000004,1e-3,-12.5E+2,0]";
    let rendered = roundtrip(body);
    assert_eq!(rendered, body);
}

#[test]
fn serializes_canonically() {
    assert_eq!(roundtrip(" { \"a\" : null , \"b\" : [ true ] } "), "{\"a\":null,\"b\":[true]}");
    assert_eq!(roundtrip("[]"), "[]");
    assert_eq!(roundtrip("{}"), "{}");
}

#[test]
fn escapes_survive_a_round_trip() {
    let j = parse_json("\"a\\\"b\\\\c\\n\"").expect("should parse");
    match &j {
        Json::Str(t) => assert_eq!(t, "a\"b\\c\n"),
        _ => panic!("expected string"),
    }
    let rendered = to_text(&j);
    let again = parse_json(&rendered).expect("reparse");
    match again {
        Json::Str(t) => assert_eq!(t, "a\"b\\c\n"),
        _ => panic!("expected string"),
    }
}
