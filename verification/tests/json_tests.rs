use cpp_to_rust::json::{escape_string, parse_hex_u16_exec, JsonNode, Parser};

fn num(t: &str) -> JsonNode {
    JsonNode::Number(t.to_string())
}

#[test]
fn parses_literals_and_numbers() {
    assert!(JsonNode::parse("null").unwrap().is_null());
    assert_eq!(JsonNode::parse("true").unwrap().as_bool(), Some(true));
    assert_eq!(JsonNode::parse("false").unwrap().as_bool(), Some(false));
    assert_eq!(JsonNode::parse("  -1.5e+3 ").unwrap().number_text(), Some("-1.5e+3"));
    assert_eq!(JsonNode::parse("42").unwrap().number_text(), Some("42"));
    assert!(JsonNode::parse("nul").is_none());
    assert!(JsonNode::parse("").is_none());
    assert!(JsonNode::parse("?").is_none());
}

#[test]
fn parses_strings_with_escapes() {
    let v = JsonNode::parse(r#""a\"b\\c\/d\n\u0041\u00e9""#).unwrap();
    assert_eq!(v.as_str(), Some("a\"b\\c/d\nAé"));
    assert!(JsonNode::parse("\"unterminated").is_none());
}

#[test]
fn parses_objects_and_arrays() {
    let val = JsonNode::parse(r#"{"name":"John","address":{"city":"Tokyo"},"scores":[95,87,92]}"#).unwrap();
    assert_eq!(val.get_object_item("name").and_then(|v| v.as_str()), Some("John"));
    assert_eq!(
        val.get_object_item("address").and_then(|a| a.get_object_item("city")).and_then(|c| c.as_str()),
        Some("Tokyo")
    );
    let scores = val.get_object_item("scores").unwrap();
    assert_eq!(scores.get_array_size(), 3);
    assert_eq!(scores.get_array_item(1).and_then(|v| v.number_text()), Some("87"));
    assert!(scores.get_array_item(3).is_none());
    assert_eq!(val.get_array_size(), 3);
    assert!(val.has_object_item("scores"));
    assert!(!val.has_object_item("missing"));
    assert!(JsonNode::parse("[1,2").is_none());
    assert!(JsonNode::parse("{\"a\" 1}").is_none());
}

#[test]
fn duplicate_keys_keep_the_last_value() {
    let val = JsonNode::parse(r#"{"a":1,"b":2,"a":3}"#).unwrap();
    assert_eq!(val.get_array_size(), 2);
    assert_eq!(val.get_object_item("a").and_then(|v| v.number_text()), Some("3"));
}

#[test]
fn prints_compact_and_indented() {
    let val = JsonNode::parse(r#"{"b":[1,true,null],"a":"x\ty"}"#).unwrap();
    assert_eq!(val.print_unformatted(), "{\"b\":[1,true,null],\"a\":\"x\\ty\"}");
    assert_eq!(val.print(), "{\n\t\"b\": [\n\t1,\n\ttrue,\n\tnull\n],\n\t\"a\": \"x\\ty\"\n}");
    assert_eq!(JsonNode::Array(Vec::new()).print(), "[\n]");
}

#[test]
fn escapes_control_characters() {
    assert_eq!(escape_string("a\u{1}\"\\"), "a\\u0001\\\"\\\\");
    assert_eq!(escape_string("\u{1f}"), "\\u001f");
}

#[test]
fn changes_arrays_and_objects() {
    let mut arr = JsonNode::Array(Vec::new());
    arr.array_push(num("1"));
    arr.array_push(JsonNode::Str("s".to_string()));
    assert_eq!(arr.print_unformatted(), "[1,\"s\"]");
    let mut obj = JsonNode::Object(Vec::new());
    obj.object_insert("k", num("1"));
    obj.object_insert("k", num("2"));
    assert_eq!(obj.get_array_size(), 1);
    assert_eq!(obj.get_object_item("k").and_then(|v| v.number_text()), Some("2"));
    let mut s = JsonNode::Str("x".to_string());
    s.array_push(num("1"));
    assert_eq!(s.as_str(), Some("x"));
    obj.delete();
}

#[test]
fn parser_steps() {
    let mut p = Parser::new("  \"hi\" x");
    p.skip_whitespace();
    assert_eq!(p.peek(), Some('"'));
    assert_eq!(p.parse_string(), Some("hi".to_string()));
    assert_eq!(p.consume(), Some(' '));
    assert_eq!(p.consume(), Some('x'));
    assert_eq!(p.consume(), None);
}

#[test]
fn hex_escapes() {
    assert_eq!(parse_hex_u16_exec("00e9"), Some(0xe9));
    assert_eq!(parse_hex_u16_exec("+ff"), Some(0xff));
    assert_eq!(parse_hex_u16_exec("+"), None);
    assert_eq!(parse_hex_u16_exec("g1"), None);
}

fn number_value(v: Option<&JsonNode>) -> Option<f64> {
    v.and_then(|n| n.number_text()).map(|t| t.parse::<f64>().unwrap())
}

#[test]
fn test_parse_null() {
    assert_eq!(JsonNode::parse("null"), Some(JsonNode::Null));
}

#[test]
fn test_parse_bool() {
    assert_eq!(JsonNode::parse("true"), Some(JsonNode::Bool(true)));
    assert_eq!(JsonNode::parse("false"), Some(JsonNode::Bool(false)));
}

#[test]
fn test_parse_number_int() {
    assert_eq!(number_value(JsonNode::parse("42").as_ref()), Some(42.0));
    assert_eq!(number_value(JsonNode::parse("-1").as_ref()), Some(-1.0));
}

#[test]
fn test_parse_number_float() {
    assert_eq!(number_value(JsonNode::parse("3.14").as_ref()), Some(3.14));
}

#[test]
fn test_parse_string() {
    assert_eq!(JsonNode::parse("\"hello\""), Some(JsonNode::Str("hello".to_string())));
}

#[test]
fn test_parse_object() {
    let json = r#"{"name":"John","age":30}"#;
    let val = JsonNode::parse(json).unwrap();
    assert_eq!(val.get_object_item("name").and_then(|v| v.as_str()), Some("John"));
    assert_eq!(number_value(val.get_object_item("age")), Some(30.0));
}

#[test]
fn test_parse_array() {
    let val = JsonNode::parse("[1,2,3]").unwrap();
    assert_eq!(val.get_array_size(), 3);
    assert_eq!(number_value(val.get_array_item(0)), Some(1.0));
}

#[test]
fn test_nested_json() {
    let json = r#"{"name":"John","address":{"city":"Tokyo"},"scores":[95,87,92]}"#;
    let val = JsonNode::parse(json).unwrap();
    assert_eq!(
        val.get_object_item("address")
            .and_then(|a| a.get_object_item("city"))
            .and_then(|c| c.as_str()),
        Some("Tokyo")
    );
    assert_eq!(
        number_value(val.get_object_item("scores").and_then(|s| s.get_array_item(1))),
        Some(87.0)
    );
}

#[test]
fn escaped_string_reads_back() {
    for t in ["", "plain", "quote \" and \\ back", "lines\nand\ttabs\r", "\u{1}\u{1f}\u{7f}", "é", "日本 😀\n"] {
        let written = format!("\"{}\"", escape_string(t));
        let doc = format!("{},1", written);
        let mut p = Parser::new(&doc);
        assert_eq!(p.parse_string().as_deref(), Some(t));
        assert_eq!(p.peek(), Some(','));
    }
}

#[test]
fn prints_members_in_insertion_order() {
    let val = JsonNode::parse(r#"{"name":"John","age":30}"#).unwrap();
    assert_eq!(val.print_unformatted(), r#"{"name":"John","age":30}"#);
}

#[test]
fn refuses_numbers_without_digits() {
    assert!(JsonNode::parse("-").is_none());
    assert!(JsonNode::parse("1e").is_none());
    assert!(JsonNode::parse("1e+").is_none());
    assert!(JsonNode::parse("[1,-]").is_none());
    assert_eq!(JsonNode::parse("-.5").unwrap().number_text(), Some("-.5"));
    assert_eq!(JsonNode::parse("1.").unwrap().number_text(), Some("1."));
}

#[test]
fn parses_utf8_text_in_strings() {
    assert_eq!(JsonNode::parse("\"é\""), Some(JsonNode::Str("é".to_string())));
    assert_eq!(JsonNode::parse("\"a\\é😀\""), Some(JsonNode::Str("aé😀".to_string())));
    let val = JsonNode::parse(r#"{"city":"東京"}"#).unwrap();
    assert_eq!(val.get_object_item("city").and_then(|v| v.as_str()), Some("東京"));
}
