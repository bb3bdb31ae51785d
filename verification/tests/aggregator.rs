use json_stat_extractor::{
    extract_stat_from_json_iter, json_stat_size, JsonStat, JsonValue,
};

fn text(s: &str) -> JsonValue {
    JsonValue::Text(s.to_string())
}

#[test]
fn it_should_provide_size_of_json_value() {
    let result = extract_stat_from_json_iter(&text("test"));
    match result {
        JsonStat::ValStat(vs) => {
            assert_eq!(vs.size, 6);
            assert_eq!(vs.max_size, 6);
            assert_eq!(vs.min_size, 6);
        }
        _ => {
            assert!(false);
        }
    }
}

#[test]
fn it_should_provide_size_of_json_null() {
    let result = extract_stat_from_json_iter(&JsonValue::Null);
    match result {
        JsonStat::ValStat(vs) => {
            assert_eq!(vs.size, 4);
            assert_eq!(vs.max_size, 4);
            assert_eq!(vs.min_size, 4);
        }
        _ => {
            assert!(false);
        }
    }
}

#[test]
fn it_should_provide_size_of_json_true() {
    let result = extract_stat_from_json_iter(&JsonValue::Bool(true));
    match result {
        JsonStat::ValStat(vs) => {
            assert_eq!(vs.size, 4);
            assert_eq!(vs.max_size, 4);
            assert_eq!(vs.min_size, 4);
        }
        _ => {
            assert!(false);
        }
    }
}

#[test]
fn it_should_provide_size_of_json_object() {
    let value = JsonValue::Object(vec![("test".to_string(), text("test"))]);
    let result = extract_stat_from_json_iter(&value);
    match result {
        JsonStat::ObjStat(os) => {
            assert_eq!(os.size, 15);
            assert_eq!(os.count, 1);
            assert_eq!(os.max_size, 15);
            assert_eq!(os.min_size, 15);
            assert_eq!(os.attributes.len(), 1);
            let attr_stat = os.attributes.first().unwrap();
            assert_eq!(attr_stat.name, "test");
            assert_eq!(attr_stat.count, 1);
            assert_eq!(attr_stat.size, 6);
            assert_eq!(attr_stat.max_size, 6);
            assert_eq!(attr_stat.min_size, 6);
        }
        _ => {
            assert!(false);
        }
    }
}

#[test]
fn it_should_provide_size_of_json_array() {
    let value = JsonValue::Array(vec![text("test"), text("test0123456789")]);
    let result = extract_stat_from_json_iter(&value);
    match result {
        JsonStat::ArrayStat(ars) => {
            assert_eq!(ars.min_size, 6);
            assert_eq!(ars.max_size, 16);
            assert_eq!(ars.size, 25);
            assert_eq!(ars.count, 2);
            assert_eq!(ars.attributes.len(), 0);
        }
        _ => {
            assert!(false);
        }
    }
}

#[test]
fn it_should_provide_size_of_json_array_of_objects() {
    let value = JsonValue::Array(vec![
        JsonValue::Object(vec![("test".to_string(), text("test"))]),
        JsonValue::Object(vec![
            ("test".to_string(), text("test3")),
            ("b".to_string(), JsonValue::Bool(true)),
        ]),
    ]);
    let result = extract_stat_from_json_iter(&value);
    match result {
        JsonStat::ArrayStat(ars) => {
            assert_eq!(ars.min_size, 15);
            assert_eq!(ars.max_size, 24);
            assert_eq!(ars.size, 42);
            assert_eq!(ars.count, 2);
            assert_eq!(ars.attributes.len(), 2);
            let test_attribute = ars
                .attributes
                .iter()
                .find(|a| a.name == "test")
                .unwrap();
            assert_eq!(test_attribute.min_size, 6);
            assert_eq!(test_attribute.max_size, 7);
            assert_eq!(test_attribute.size, 6);
            assert_eq!(test_attribute.count, 2);
            let b_attribute = ars.attributes.iter().find(|a| a.name == "b").unwrap();
            assert_eq!(b_attribute.name, "b");
        }
        _ => {
            assert!(false);
        }
    }
}

#[test]
fn false_is_five_bytes() {
    let result = extract_stat_from_json_iter(&JsonValue::Bool(false));
    match result {
        JsonStat::ValStat(vs) => {
            assert_eq!(vs.size, 5);
            assert_eq!(vs.max_size, 5);
            assert_eq!(vs.min_size, 5);
        }
        _ => {
            assert!(false);
        }
    }
}

#[test]
fn number_size_is_rendering_length() {
    let result = extract_stat_from_json_iter(&JsonValue::Number("1234".to_string()));
    match result {
        JsonStat::ValStat(vs) => {
            assert_eq!(vs.size, 4);
            assert_eq!(vs.max_size, 4);
            assert_eq!(vs.min_size, 4);
        }
        _ => {
            assert!(false);
        }
    }
}

#[test]
fn string_size_counts_utf8_bytes_not_chars() {
    // one two-byte character: 2 content bytes plus 2 quotes
    let result = extract_stat_from_json_iter(&text("\u{00e9}"));
    match result {
        JsonStat::ValStat(vs) => {
            assert_eq!(vs.size, 4);
        }
        _ => {
            assert!(false);
        }
    }
}

#[test]
fn empty_array_counts_as_zero_bytes() {
    let result = extract_stat_from_json_iter(&JsonValue::Array(vec![]));
    match result {
        JsonStat::ArrayStat(ars) => {
            assert_eq!(ars.size, 0);
            assert_eq!(ars.count, 0);
            assert_eq!(ars.min_size, 0);
            assert_eq!(ars.max_size, 0);
            assert_eq!(ars.attributes.len(), 0);
        }
        _ => {
            assert!(false);
        }
    }
}

#[test]
fn empty_object_counts_its_braces() {
    let result = extract_stat_from_json_iter(&JsonValue::Object(vec![]));
    match result {
        JsonStat::ObjStat(os) => {
            assert_eq!(os.size, 2);
            assert_eq!(os.count, 1);
            assert_eq!(os.min_size, 2);
            assert_eq!(os.max_size, 2);
            assert_eq!(os.attributes.len(), 0);
        }
        _ => {
            assert!(false);
        }
    }
}

#[test]
fn running_twice_gives_equal_output() {
    let value = JsonValue::Array(vec![
        JsonValue::Object(vec![
            ("a".to_string(), JsonValue::Null),
            ("b".to_string(), text("xy")),
        ]),
        JsonValue::Object(vec![("a".to_string(), JsonValue::Bool(false))]),
        text("tail"),
    ]);
    let first = extract_stat_from_json_iter(&value);
    let second = extract_stat_from_json_iter(&value);
    assert_eq!(first, second);
}

#[test]
fn nested_object_sizes_add_up() {
    // {"a":[true,false]}: the array is 4 + 5 + 1 comma + 2 brackets = 12,
    // the member adds 2 quotes + 1 name byte + 1 colon, plus 2 braces.
    let value = JsonValue::Object(vec![(
        "a".to_string(),
        JsonValue::Array(vec![JsonValue::Bool(true), JsonValue::Bool(false)]),
    )]);
    let result = extract_stat_from_json_iter(&value);
    match result {
        JsonStat::ObjStat(os) => {
            assert_eq!(os.size, 18);
            assert_eq!(os.attributes.len(), 1);
            assert_eq!(os.attributes[0].size, 12);
        }
        _ => {
            assert!(false);
        }
    }
}

#[test]
fn empty_array_element_is_two_bytes_inside_an_array() {
    // [[]]: the inner empty array counts 0 on its own, the outer adds
    // brackets: 0 + 0 commas + 2 brackets.
    let value = JsonValue::Array(vec![JsonValue::Array(vec![])]);
    let result = extract_stat_from_json_iter(&value);
    match result {
        JsonStat::ArrayStat(ars) => {
            assert_eq!(ars.size, 2);
            assert_eq!(ars.count, 1);
            assert_eq!(ars.min_size, 0);
            assert_eq!(ars.max_size, 0);
        }
        _ => {
            assert!(false);
        }
    }
}

#[test]
fn attribute_names_appear_once_with_per_element_counts() {
    let value = JsonValue::Array(vec![
        JsonValue::Object(vec![
            ("x".to_string(), JsonValue::Null),
            ("y".to_string(), JsonValue::Bool(true)),
        ]),
        JsonValue::Object(vec![("y".to_string(), text("q"))]),
        JsonValue::Bool(false),
        JsonValue::Object(vec![
            ("y".to_string(), JsonValue::Null),
            ("x".to_string(), JsonValue::Null),
        ]),
    ]);
    let result = extract_stat_from_json_iter(&value);
    match result {
        JsonStat::ArrayStat(ars) => {
            assert_eq!(ars.attributes.len(), 2);
            let x_entries: Vec<_> = ars.attributes.iter().filter(|a| a.name == "x").collect();
            let y_entries: Vec<_> = ars.attributes.iter().filter(|a| a.name == "y").collect();
            assert_eq!(x_entries.len(), 1);
            assert_eq!(y_entries.len(), 1);
            assert_eq!(x_entries[0].count, 2);
            assert_eq!(y_entries[0].count, 3);
        }
        _ => {
            assert!(false);
        }
    }
}

#[test]
fn stat_size_reads_each_variant() {
    let scalar = extract_stat_from_json_iter(&JsonValue::Null);
    assert_eq!(json_stat_size(&scalar), 4);
    let object = extract_stat_from_json_iter(&JsonValue::Object(vec![]));
    assert_eq!(json_stat_size(&object), 2);
    let array = extract_stat_from_json_iter(&JsonValue::Array(vec![JsonValue::Null]));
    assert_eq!(json_stat_size(&array), 6);
}
