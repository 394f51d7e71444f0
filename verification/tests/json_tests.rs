use codecompass::json::{to_json_string, JsonValue};
use codecompass::strutil::{u64_to_dec, u64_to_hex16};

fn obj(pairs: Vec<(&str, JsonValue)>) -> JsonValue {
    JsonValue::Obj(pairs.into_iter().map(|(k, v)| (k.to_string(), v)).collect())
}

#[test]
fn serialises_scalars() {
    assert_eq!(to_json_string(&JsonValue::Null), "null");
    assert_eq!(to_json_string(&JsonValue::Bool(true)), "true");
    assert_eq!(to_json_string(&JsonValue::Bool(false)), "false");
    assert_eq!(to_json_string(&JsonValue::Int(-42)), "-42");
    assert_eq!(to_json_string(&JsonValue::UInt(7)), "7");
    assert_eq!(to_json_string(&JsonValue::Str("hi".to_string())), "\"hi\"");
}

#[test]
fn serialises_arrays_and_objects_without_spaces() {
    let v = obj(vec![
        ("a", JsonValue::Arr(vec![JsonValue::UInt(1), JsonValue::UInt(2)])),
        ("b", JsonValue::Str("x".to_string())),
    ]);
    assert_eq!(to_json_string(&v), "{\"a\":[1,2],\"b\":\"x\"}");
}

#[test]
fn escapes_match_the_reference_serialiser() {
    let tricky = "q\"b\\s\nn\tt\rr\u{8}b\u{c}f\u{1}u";
    let mine = to_json_string(&JsonValue::Str(tricky.to_string()));
    let reference = serde_json::to_string(&serde_json::Value::String(tricky.to_string())).unwrap();
    assert_eq!(mine, reference);
}

#[test]
fn output_parses_back_with_the_reference_parser() {
    let v = obj(vec![
        ("text", JsonValue::Str("line1\nline2 \"quoted\"".to_string())),
        ("n", JsonValue::Int(-5)),
        ("u", JsonValue::UInt(18446744073709551615)),
        ("list", JsonValue::Arr(vec![JsonValue::Null, JsonValue::Bool(false)])),
    ]);
    let text = to_json_string(&v);
    let parsed: serde_json::Value = serde_json::from_str(&text).unwrap();
    assert_eq!(parsed["text"], "line1\nline2 \"quoted\"");
    assert_eq!(parsed["n"], -5);
    assert_eq!(parsed["u"], 18446744073709551615u64);
    assert_eq!(parsed["list"].as_array().unwrap().len(), 2);
}

#[test]
fn field_lookup_finds_first_match() {
    let v = obj(vec![("k", JsonValue::UInt(1))]);
    let got = v.get("k").and_then(|x| x.as_u64());
    assert_eq!(got, Some(1));
    assert!(v.get("missing").is_none());
}

#[test]
fn decimal_rendering_is_exact() {
    assert_eq!(u64_to_dec(0), "0");
    assert_eq!(u64_to_dec(10), "10");
    assert_eq!(u64_to_dec(18446744073709551615), "18446744073709551615");
}

#[test]
fn hex_rendering_is_sixteen_lowercase_digits() {
    assert_eq!(u64_to_hex16(0), "0000000000000000");
    assert_eq!(u64_to_hex16(0x1234abcd5678ef90), "1234abcd5678ef90");
    assert_eq!(u64_to_hex16(u64::MAX), "ffffffffffffffff");
}

#[test]
fn measured_size_matches_reference_byte_count() {
    let v = obj(vec![("s", JsonValue::Str("héllo\n".to_string()))]);
    let text = to_json_string(&v);
    let reference = serde_json::to_vec(&serde_json::from_str::<serde_json::Value>(&text).unwrap())
        .unwrap();
    assert_eq!(text.as_bytes().len(), reference.len());
}
