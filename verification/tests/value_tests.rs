use json_exporter::casing::to_snake_case;
use json_exporter::custom_include::last_segment;
use json_exporter::jq::{json_scalar_value, JqError};
use json_exporter::json::{json_text, parse_json, Json, JsonNum};
use json_exporter::utils::{
    i64_to_dec_string, json_number_to_i64, json_value_to_i64, json_value_to_str, lower_ascii,
    trim_str, u64_to_dec_string,
};

#[test]
fn parse_classifies_every_shape() {
    assert!(matches!(parse_json("null"), Some(Json::Null)));
    assert!(matches!(parse_json("true"), Some(Json::Bool(true))));
    assert!(matches!(parse_json("54"), Some(Json::Num(JsonNum::Int(54)))));
    assert!(matches!(parse_json("\"hi\""), Some(Json::Text(_))));
    assert!(matches!(parse_json("[1]"), Some(Json::Arr(_))));
    assert!(matches!(parse_json("{\"a\":1}"), Some(Json::Obj(_))));
    assert!(parse_json("{oops").is_none());
}

#[test]
fn parse_keeps_object_entries() {
    match parse_json("{\"a\":1,\"b\":\"x\"}") {
        Some(Json::Obj(entries)) => {
            assert_eq!(entries.len(), 2);
            assert_eq!(entries[0].0, "a");
            assert!(matches!(entries[0].1, Json::Num(JsonNum::Int(1))));
            assert_eq!(entries[1].0, "b");
        },
        other => panic!("expected an object, got {:?}", other.is_some()),
    }
}

#[test]
fn parse_splits_numbers_by_range() {
    assert!(matches!(parse_json("-7"), Some(Json::Num(JsonNum::Int(-7)))));
    assert!(matches!(
        parse_json("18446744073709551615"),
        Some(Json::Num(JsonNum::Big(18446744073709551615)))
    ));
    match parse_json("3.25") {
        Some(Json::Num(JsonNum::Other(t))) => assert_eq!(t, "3.25"),
        other => panic!("expected a non-integral number, got {:?}", other.is_some()),
    }
}

#[test]
fn gauge_coercion_of_values() {
    assert_eq!(json_value_to_i64(&Json::Text("OK".to_string())), Some(1));
    assert_eq!(json_value_to_i64(&Json::Text("Error".to_string())), Some(0));
    assert_eq!(json_value_to_i64(&Json::Text("degraded".to_string())), None);
    assert_eq!(json_value_to_i64(&Json::Bool(true)), Some(1));
    assert_eq!(json_value_to_i64(&Json::Bool(false)), Some(0));
    assert_eq!(json_value_to_i64(&Json::Num(JsonNum::Int(42))), Some(42));
    assert_eq!(json_value_to_i64(&Json::Num(JsonNum::Big(u64::MAX))), None);
    assert_eq!(json_value_to_i64(&Json::Null), None);
}

#[test]
fn number_coercion_rejects_out_of_range() {
    assert_eq!(json_number_to_i64(&Json::Num(JsonNum::Int(-1))), Some(-1));
    assert_eq!(json_number_to_i64(&Json::Num(JsonNum::Big(u64::MAX))), None);
    assert_eq!(json_number_to_i64(&Json::Bool(true)), None);
}

#[test]
fn label_text_of_values() {
    assert_eq!(json_value_to_str(&Json::Text("x".to_string())), Some("x".to_string()));
    assert_eq!(json_value_to_str(&Json::Num(JsonNum::Int(-54))), Some("-54".to_string()));
    assert_eq!(
        json_value_to_str(&Json::Num(JsonNum::Big(18446744073709551615))),
        Some("18446744073709551615".to_string())
    );
    assert_eq!(
        json_value_to_str(&Json::Num(JsonNum::Other("3.25".to_string()))),
        Some("3.25".to_string())
    );
    assert_eq!(json_value_to_str(&Json::Bool(true)), Some("true".to_string()));
    assert_eq!(json_value_to_str(&Json::Null), None);
}

#[test]
fn decimal_rendering() {
    assert_eq!(i64_to_dec_string(0), "0");
    assert_eq!(i64_to_dec_string(-1), "-1");
    assert_eq!(i64_to_dec_string(i64::MIN), "-9223372036854775808");
    assert_eq!(i64_to_dec_string(i64::MAX), "9223372036854775807");
    assert_eq!(u64_to_dec_string(u64::MAX), "18446744073709551615");
}

#[test]
fn snake_casing_changes_its_input() {
    assert_eq!(to_snake_case("promTest"), "prom_test");
    assert_eq!(to_snake_case("prom-test"), "prom_test");
    assert_eq!(to_snake_case("Upstream Endpoints"), "upstream_endpoints");
}

#[test]
fn snake_casing_keeps_other_alphabets_verbatim() {
    // a delimiter-free name with a case change after a multi-byte character:
    // the converter would cut inside the character, so such names pass
    // through unconverted
    assert_eq!(to_snake_case("gr\u{f6}\u{df}eWert"), "gr\u{f6}\u{df}eWert");
}

#[test]
fn ascii_case_folding() {
    assert_eq!(lower_ascii("AbC"), "abc");
    assert_eq!(lower_ascii("ok"), "ok");
}

#[test]
fn trimming_removes_surrounding_whitespace() {
    assert_eq!(trim_str("  x \n"), "x");
    assert_eq!(trim_str("none"), "none");
    assert_eq!(trim_str(" \t "), "");
}

#[test]
fn terminal_segment_of_selector_paths() {
    assert_eq!(last_segment(".router.backend.back1"), "back1");
    assert_eq!(last_segment("back1"), "back1");
    assert_eq!(last_segment(".router."), "");
}

#[test]
fn non_scalar_message_names_the_offending_value() {
    match json_scalar_value("{\"a\":1}").unwrap_err() {
        JqError::NonScalarValueError(v) => {
            assert_eq!(v.message, "Expected scalar value. Found {\"a\":1}");
        },
        other => panic!("expected a non-scalar error, got {:?}", other),
    }
}

#[test]
fn json_text_renders_compactly() {
    let v = parse_json("{\"a\": [1, \"x\"], \"b\": null}").unwrap();
    assert_eq!(json_text(&v), "{\"a\":[1,\"x\"],\"b\":null}");
    let t = Json::Text("a\"b\\".to_string());
    assert_eq!(json_text(&t), "\"a\\\"b\\\\\"");
    let f = parse_json("3.25").unwrap();
    assert_eq!(json_text(&f), "3.25");
    let big = parse_json("18446744073709551615").unwrap();
    assert_eq!(json_text(&big), "18446744073709551615");
}

#[test]
fn scalar_extraction_from_resolved_text() {
    assert_eq!(json_scalar_value("\"production\"").unwrap(), "production");
    assert_eq!(json_scalar_value("54").unwrap(), "54");
    assert!(matches!(
        json_scalar_value("{\"a\":1}").unwrap_err(),
        JqError::NonScalarValueError(_)
    ));
    assert!(matches!(json_scalar_value("{oops").unwrap_err(), JqError::ParserError(_)));
}
