use json_stat_extractor::{extract_stat_checked, try_value_size, JsonStat, JsonValue};

#[test]
fn checked_extraction_agrees_with_plain_extraction() {
    let value = JsonValue::Object(vec![
        ("k".to_string(), JsonValue::Text("v".to_string())),
        ("n".to_string(), JsonValue::Number("7".to_string())),
    ]);
    let checked = extract_stat_checked(&value).unwrap();
    match checked {
        JsonStat::ObjStat(os) => {
            // "k":"v" is 3 + 2 + 1 + 1 = 7, "n":7 is 1 + 2 + 1 + 1 = 5, plus braces
            assert_eq!(os.size, 14);
            assert_eq!(os.attributes.len(), 2);
        }
        _ => {
            assert!(false);
        }
    }
}

#[test]
fn value_size_of_scalars_and_containers() {
    assert_eq!(try_value_size(&JsonValue::Null), Some(4));
    assert_eq!(try_value_size(&JsonValue::Bool(false)), Some(5));
    assert_eq!(
        try_value_size(&JsonValue::Text("ab".to_string())),
        Some(4)
    );
    assert_eq!(try_value_size(&JsonValue::Array(vec![])), Some(0));
    let nested = JsonValue::Array(vec![JsonValue::Null, JsonValue::Text("x".to_string())]);
    // 4 + 3 + 1 comma + 2 brackets
    assert_eq!(try_value_size(&nested), Some(10));
}
