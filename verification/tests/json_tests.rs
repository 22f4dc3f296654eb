use sazid::json::{deep_merge, JsonNumber, JsonValue};

fn num(n: i64) -> JsonValue {
    JsonValue::Number(JsonNumber { as_i64: Some(n), text: n.to_string() })
}

fn obj(members: Vec<(&str, JsonValue)>) -> JsonValue {
    JsonValue::Object(members.into_iter().map(|(k, v)| (k.to_string(), v)).collect())
}

fn shown(v: &JsonValue) -> String {
    match v {
        JsonValue::Null => "null".to_string(),
        JsonValue::Bool(b) => b.to_string(),
        JsonValue::Number(n) => n.text.clone(),
        JsonValue::String(s) => format!("{:?}", s),
        JsonValue::Array(items) => format!("[{}]", items.iter().map(shown).collect::<Vec<_>>().join(",")),
        JsonValue::Object(members) => format!(
            "{{{}}}",
            members.iter().map(|(k, v)| format!("{:?}:{}", k, shown(v))).collect::<Vec<_>>().join(",")
        ),
    }
}

#[test]
fn objects_merge_member_by_member() {
    let base = obj(vec![("a", num(1)), ("b", obj(vec![("x", num(1))]))]);
    let other = obj(vec![("b", obj(vec![("y", num(2))])), ("c", num(3))]);
    let merged = deep_merge(base, &other);
    assert_eq!(shown(&merged), r#"{"a":1,"b":{"x":1,"y":2},"c":3}"#);
}

#[test]
fn other_values_replace_the_base() {
    assert_eq!(shown(&deep_merge(obj(vec![("a", num(1))]), &num(5))), "5");
    assert_eq!(shown(&deep_merge(num(5), &obj(vec![("a", num(1))]))), r#"{"a":1}"#);
    let base = obj(vec![("a", obj(vec![("x", num(1))]))]);
    let other = obj(vec![("a", JsonValue::Array(vec![JsonValue::Bool(true)]))]);
    assert_eq!(shown(&deep_merge(base, &other)), r#"{"a":[true]}"#);
}

#[test]
fn merging_an_empty_object_changes_nothing() {
    let base = obj(vec![("a", num(1)), ("b", JsonValue::Null)]);
    assert_eq!(shown(&deep_merge(base, &obj(vec![]))), r#"{"a":1,"b":null}"#);
}

#[test]
fn merge_agrees_with_the_recursive_merge_of_serde_values() {
    fn reference(base: &mut serde_json::Value, other: &serde_json::Value) {
        match (base, other) {
            (serde_json::Value::Object(base_map), serde_json::Value::Object(other_map)) => {
                for (key, other_value) in other_map {
                    reference(base_map.entry(key).or_insert(serde_json::Value::Null), other_value);
                }
            },
            (base, other) => *base = other.clone(),
        }
    }
    let mut expected: serde_json::Value =
        serde_json::from_str(r#"{"a":{"b":{"c":1,"d":2}},"e":[1]}"#).unwrap();
    reference(&mut expected, &serde_json::from_str(r#"{"a":{"b":{"d":3,"f":4}},"e":{"g":5}}"#).unwrap());
    let base = obj(vec![("a", obj(vec![("b", obj(vec![("c", num(1)), ("d", num(2))]))])), ("e", JsonValue::Array(vec![num(1)]))]);
    let other = obj(vec![("a", obj(vec![("b", obj(vec![("d", num(3)), ("f", num(4))]))])), ("e", obj(vec![("g", num(5))]))]);
    let merged = deep_merge(base, &other);
    let merged_serde: serde_json::Value = serde_json::from_str(&shown(&merged)).unwrap();
    assert_eq!(merged_serde, expected);
}
