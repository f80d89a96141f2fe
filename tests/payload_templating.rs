use svroll::template::{
    field_value, has_field, pick_weighted, process_fields, process_single_field, set_field_value, FieldType, JsonValue,
    MqttFieldStruct, MqttSendData, PossibleValue, ScalarValue,
};

fn rule(name: &str, t: FieldType) -> MqttFieldStruct {
    MqttFieldStruct {
        field_name: name.to_string(),
        field_type: t,
        min_value: None,
        max_value: None,
        possible_values: None,
        child: None,
    }
}

fn obj(entries: Vec<(&str, JsonValue)>) -> JsonValue {
    JsonValue::Object(entries.into_iter().map(|(k, v)| (k.to_string(), v)).collect())
}

fn field<'a>(v: &'a JsonValue, name: &str) -> Option<&'a JsonValue> {
    match v {
        JsonValue::Object(es) => es.iter().find(|(k, _)| k == name).map(|(_, v)| v),
        _ => None,
    }
}

#[test]
fn weighted_pick_never_takes_zero_weight() {
    let ws = vec![0u64, 1_000_000];
    for d in [0u64, 1, 500_000, 999_999] {
        assert_eq!(pick_weighted(&ws, d), Some(1));
    }
    assert_eq!(pick_weighted(&ws, 1_000_000), None);
    assert_eq!(pick_weighted(&vec![2, 3, 5], 4), Some(1));
    assert_eq!(pick_weighted(&vec![2, 3, 5], 5), Some(2));
    assert_eq!(pick_weighted(&vec![], 0), None);
}

#[test]
fn enum_rule_always_picks_weighted_value() {
    let mut r = rule("v", FieldType::Enum);
    r.possible_values = Some(vec![
        PossibleValue { value: ScalarValue::Int(1), weight: 0 },
        PossibleValue { value: ScalarValue::Int(2), weight: 1_000_000 },
    ]);
    for _ in 0..200 {
        let mut data = obj(vec![("v", JsonValue::Int(0))]);
        process_single_field(&mut data, &r, true);
        assert!(matches!(field(&data, "v"), Some(JsonValue::Int(2))));
    }
    let mut off = obj(vec![("v", JsonValue::Int(0))]);
    process_single_field(&mut off, &r, false);
    assert!(matches!(field(&off, "v"), Some(JsonValue::Int(0))));
}

#[test]
fn zero_total_weight_leaves_field() {
    let mut r = rule("v", FieldType::String);
    r.possible_values = Some(vec![PossibleValue { value: ScalarValue::Str("x".to_string()), weight: 0 }]);
    let mut data = obj(vec![("v", JsonValue::Str("keep".to_string()))]);
    process_single_field(&mut data, &r, true);
    assert!(matches!(field(&data, "v"), Some(JsonValue::Str(s)) if s == "keep"));
}

#[test]
fn integer_and_float_within_bounds() {
    let mut i = rule("i", FieldType::Integer);
    i.min_value = Some(-3);
    i.max_value = Some(3);
    let mut f = rule("f", FieldType::Float);
    f.min_value = Some(1500);
    f.max_value = Some(2500);
    for _ in 0..100 {
        let mut data = obj(vec![]);
        process_fields(&mut data, &vec![i_clone(&i), i_clone(&f)], true);
        match field(&data, "i") {
            Some(JsonValue::Int(x)) => assert!(-3 <= *x && *x <= 3),
            _ => panic!("integer missing"),
        }
        match field(&data, "f") {
            Some(JsonValue::Milli(x)) => assert!(1500 <= *x && *x <= 2500),
            _ => panic!("decimal missing"),
        }
    }
    let mut data = obj(vec![]);
    process_single_field(&mut data, &rule("i", FieldType::Integer), true);
    assert!(field(&data, "i").is_none());
}

fn i_clone(r: &MqttFieldStruct) -> MqttFieldStruct {
    MqttFieldStruct {
        field_name: r.field_name.clone(),
        field_type: r.field_type,
        min_value: r.min_value,
        max_value: r.max_value,
        possible_values: r.possible_values.clone(),
        child: None,
    }
}

#[test]
fn time_and_boolean_rules() {
    let mut data = obj(vec![]);
    process_fields(
        &mut data,
        &vec![rule("ts", FieldType::Timestamp), rule("dt", FieldType::DateTime), rule("b", FieldType::Boolean)],
        true,
    );
    match field(&data, "ts") {
        Some(JsonValue::Int(ms)) => assert!(*ms > 1_600_000_000_000),
        _ => panic!("timestamp missing"),
    }
    match field(&data, "dt") {
        Some(JsonValue::Str(s)) => assert_eq!(s.len(), 23),
        _ => panic!("date-time missing"),
    }
    assert!(matches!(field(&data, "b"), Some(JsonValue::Bool(_))));
    let mut quiet = obj(vec![]);
    process_single_field(&mut quiet, &rule("b", FieldType::Boolean), false);
    assert!(field(&quiet, "b").is_none());
}

#[test]
fn nested_objects_and_arrays() {
    let mut outer = rule("o", FieldType::Object);
    let mut inner = rule("n", FieldType::Integer);
    inner.min_value = Some(5);
    inner.max_value = Some(5);
    outer.child = Some(vec![inner]);
    let mut data = obj(vec![("o", obj(vec![("keep", JsonValue::Bool(true))])), ("x", JsonValue::Null)]);
    process_fields(&mut data, &vec![outer, rule("arr", FieldType::Array), rule("u", FieldType::Unknown)], true);
    let o = field(&data, "o").unwrap();
    assert!(matches!(field(o, "keep"), Some(JsonValue::Bool(true))));
    assert!(matches!(field(o, "n"), Some(JsonValue::Int(5))));
    assert!(matches!(field(&data, "arr"), Some(JsonValue::Array(a)) if a.is_empty()));
    assert!(field(&data, "u").is_none());
    assert!(has_field(&data, "x"));
}

#[test]
fn set_field_replaces_or_appends() {
    let mut data = obj(vec![("a", JsonValue::Int(1))]);
    set_field_value(&mut data, "a", JsonValue::Int(2));
    set_field_value(&mut data, "b", JsonValue::Int(3));
    match &data {
        JsonValue::Object(es) => {
            assert_eq!(es.len(), 2);
            assert_eq!(es[0].0, "a");
            assert!(matches!(es[0].1, JsonValue::Int(2)));
            assert_eq!(es[1].0, "b");
        }
        _ => panic!("object expected"),
    }
    let mut scalar = JsonValue::Int(4);
    set_field_value(&mut scalar, "a", JsonValue::Null);
    assert!(matches!(scalar, JsonValue::Int(4)));
    assert!(!has_field(&scalar, "a"));
}

#[test]
fn send_data_accessors() {
    let mut s = MqttSendData { data: obj(vec![]), fields: vec![] };
    s.set_fields(vec![rule("a", FieldType::Null)]);
    assert_eq!(s.fields.len(), 1);
    assert!(matches!(s.get_data(), JsonValue::Object(_)));
    assert!(matches!(ScalarValue::Raw("[1]".to_string()).to_json(), JsonValue::Raw(t) if t == "[1]"));
}

#[test]
fn field_lookup() {
    let data = obj(vec![("deviceKey", JsonValue::Str("DK".to_string())), ("n", JsonValue::Int(4))]);
    assert!(matches!(field_value(&data, "deviceKey"), Some(JsonValue::Str(s)) if s == "DK"));
    assert!(matches!(field_value(&data, "n"), Some(JsonValue::Int(4))));
    assert!(field_value(&data, "missing").is_none());
    assert!(field_value(&JsonValue::Null, "n").is_none());
}
