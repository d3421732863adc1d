use cloudreve_native::json::{json_number_for_keys, json_value_as_i64, Json, JsonNumber};
use cloudreve_native::lookup::{
    extract_size, json_string, json_u64, json_value_first_string, json_value_string_for_keys,
    share_next_page_token,
};
use cloudreve_native::output::{array_value, int_value, nat_value, text_value, value_or_null, Entries};

fn parse(text: &str) -> Json {
    Json::parse(text).unwrap()
}

fn first(text: &str) -> Option<String> {
    json_value_first_string(&parse(text))
}

#[test]
fn parsing_reads_every_kind_of_value() {
    let v = parse(r#"{"b":true,"a":[null,1,-2,1.5,"xä",18446744073709551615]}"#);
    let a = v.get("a").unwrap().as_array().unwrap();
    assert!(matches!(a[0], Json::Null));
    assert_eq!(a[1].as_i64(), Some(1));
    assert_eq!(a[1].as_u64(), Some(1));
    assert_eq!(a[2].as_i64(), Some(-2));
    assert_eq!(a[2].as_u64(), None);
    assert!(matches!(a[3], Json::Number(JsonNumber::Float(b)) if b == 1.5f64.to_bits()));
    assert_eq!(a[3].as_i64(), None);
    assert_eq!(a[4].as_str().unwrap(), "xä");
    assert_eq!(a[5].as_u64(), Some(u64::MAX));
    assert_eq!(a[5].as_i64(), None);
    assert_eq!(v.get("b").unwrap().as_bool(), Some(true));
    assert!(v.get("c").is_none());
    assert!(Json::parse("{").is_none());
    assert!(Json::parse("").is_none());
    match &v {
        Json::Object(entries) => assert_eq!(entries[0].0, "a"),
        _ => panic!("no object"),
    }
}

#[test]
fn values_from_the_json_crate_are_taken_over() {
    let value = serde_json::Value::Array(vec![
        serde_json::Value::from("t"),
        serde_json::Value::from(-7i64),
    ]);
    let json = Json::from_value(value);
    let copy = json.duplicate();
    let items = copy.as_array().unwrap();
    assert_eq!(items[0].as_str().unwrap(), "t");
    assert_eq!(items[1].as_i64(), Some(-7));
}

#[test]
fn numbers_of_values() {
    assert_eq!(json_value_as_i64(&parse("12")), Some(12));
    assert_eq!(json_value_as_i64(&parse("-12")), Some(-12));
    assert_eq!(json_value_as_i64(&parse("2.9")), Some(2));
    assert_eq!(json_value_as_i64(&parse("-2.9")), Some(-2));
    assert_eq!(json_value_as_i64(&parse("18446744073709551615")), Some(-1));
    assert_eq!(json_value_as_i64(&parse("true")), None);
    assert_eq!(json_value_as_i64(&Json::Text(" 12.5 ".to_string(), Some(12))), Some(12));
    assert_eq!(json_value_as_i64(&Json::Text("x".to_string(), None)), None);
}

#[test]
fn numbers_under_keys() {
    let v = parse(r#"{"x":{"deep":{"total":7}},"length":3}"#);
    assert_eq!(json_number_for_keys(&v, &["total", "length"]), Some(3));
    assert_eq!(json_number_for_keys(&v, &["total"]), Some(3));
    let v = parse(r#"{"b":"n","x":[{"y":null},{"total":7}]}"#);
    assert_eq!(json_number_for_keys(&v, &["total"]), Some(7));
    assert_eq!(json_number_for_keys(&parse("5"), &[]), Some(5));
    assert_eq!(json_number_for_keys(&parse(r#"{"a":[]}"#), &["a"]), None);
}

#[test]
fn first_texts() {
    assert_eq!(first(r#"" a ""#), Some("a".to_string()));
    assert_eq!(first(r#"".""#), None);
    assert_eq!(first(r#""  ""#), None);
    assert_eq!(first("1"), None);
    assert_eq!(first(r#"["", ".", "b"]"#), Some("b".to_string()));
    assert_eq!(first(r#"{"aaa":"z","url":"u","name":""}"#), Some("u".to_string()));
    assert_eq!(first(r#"{"aaa":["q"]}"#), Some("q".to_string()));
    assert_eq!(first(r#""[\"in\"]""#), Some("in".to_string()));
    assert_eq!(first(r#""{\"src\":\"[\\\"deep\\\"]\"}""#), Some("deep".to_string()));
    assert_eq!(first(r#""[]""#), Some("[]".to_string()));
    assert_eq!(first(r#""[broken]""#), Some("[broken]".to_string()));
}

#[test]
fn texts_under_keys() {
    let v = parse(r#"{"a":{"src":"s"},"other":"o"}"#);
    assert_eq!(json_value_string_for_keys(&v, &["src"]), Some("s".to_string()));
    assert_eq!(json_value_string_for_keys(&v, &["name"]), None);
    assert_eq!(json_value_string_for_keys(&parse(r#"[1,{"name":["n"]}]"#), &["name"]), Some("n".to_string()));
    assert_eq!(json_value_string_for_keys(&parse(r#""t""#), &["name"]), None);
}

#[test]
fn sizes_and_fields() {
    assert_eq!(extract_size(None), 0);
    assert_eq!(extract_size(Some(&parse(r#"{"length":4,"total":3}"#))), 3);
    assert_eq!(extract_size(Some(&parse(r#"{"size":[1]}"#))), 0);
    let v = parse(r#"{"s":"t","n":3,"m":-3}"#);
    assert_eq!(json_string(&v, "s"), "t");
    assert_eq!(json_string(&v, "n"), "");
    assert_eq!(json_u64(&v, "n"), Some(3));
    assert_eq!(json_u64(&v, "m"), None);
    assert_eq!(json_u64(&v, "x"), None);
}

#[test]
fn tokens_of_next_pages() {
    let token = |t: &str| share_next_page_token(&parse(t));
    assert_eq!(token(r#"{"pagination":{"next_token":"a","next_page_token":"b"}}"#), Some("a".to_string()));
    assert_eq!(token(r#"{"pagination":{"next_page_token":"b"}}"#), Some("b".to_string()));
    assert_eq!(token(r#"{"pagination":{"next_token":null,"next_page_token":"b"}}"#), None);
    assert_eq!(token(r#"{"pagination":{"next_token":""}}"#), None);
    assert_eq!(token(r#"{}"#), None);
}

#[test]
fn building_values() {
    let v = Entries::new().with("a", int_value(-1)).with("b", nat_value(2)).with("c", text_value("t".to_string())).object();
    assert_eq!(v.get("a").unwrap().as_i64(), Some(-1));
    assert_eq!(v.get("b").unwrap().as_u64(), Some(2));
    assert_eq!(v.get("c").unwrap().as_str().unwrap(), "t");
    assert!(matches!(value_or_null(None), Json::Null));
    assert_eq!(value_or_null(v.get("b")).as_u64(), Some(2));
    assert_eq!(array_value(vec![Json::Null]).as_array().unwrap().len(), 1);
}

#[test]
fn keys_stand_in_order_once() {
    let v = parse(r#"{"b":1,"a":{"z":1,"é":2,"y":3},"b":2}"#);
    let keys = |v: &Json| match v {
        Json::Object(entries) => entries.iter().map(|e| e.0.clone()).collect::<Vec<String>>(),
        _ => Vec::new(),
    };
    assert_eq!(keys(&v), vec!["a", "b"]);
    assert_eq!(keys(v.get("a").unwrap()), vec!["y", "z", "é"]);
    assert_eq!(v.get("b").unwrap().as_i64(), Some(2));
}
