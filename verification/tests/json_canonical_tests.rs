use xiaoo_shared::json_canonical::canonical_json;
use xiaoo_shared::json_value::JsonValue;

fn object(members: Vec<(&str, JsonValue)>) -> JsonValue {
    JsonValue::Object(members.into_iter().map(|(k, v)| (k.to_string(), v)).collect())
}

fn text(s: &str) -> JsonValue {
    JsonValue::Str(s.to_string())
}

fn keys(v: &JsonValue) -> Vec<String> {
    match v {
        JsonValue::Object(members) => members.iter().map(|(k, _)| k.clone()).collect(),
        _ => panic!("not an object"),
    }
}

#[test]
fn backend_config_hash_is_stable_for_reordered_config() {
    let left = object(vec![("home_dir", text("/home/user")), ("temp_root", text("/tmp/xiaoo"))]);
    let right = object(vec![("temp_root", text("/tmp/xiaoo")), ("home_dir", text("/home/user"))]);
    assert_eq!(format!("{:?}", canonical_json(&left)), format!("{:?}", canonical_json(&right)));
}

#[test]
fn backend_key_is_stable_for_reordered_config() {
    let left = object(vec![
        ("workspace_root", text("/workspace")),
        ("home_dir", text("/home/user")),
        ("temp_root", text("/tmp/xiaoo")),
    ]);
    let right = object(vec![
        ("temp_root", text("/tmp/xiaoo")),
        ("home_dir", text("/home/user")),
        ("workspace_root", text("/workspace")),
    ]);
    assert_eq!(format!("{:?}", canonical_json(&left)), format!("{:?}", canonical_json(&right)));
}

#[test]
fn canonical_form_sorts_nested_objects_and_keeps_the_last_duplicate() {
    let value = object(vec![
        ("zeta", JsonValue::Array(vec![object(vec![("b", JsonValue::Null), ("a", JsonValue::Bool(true))])])),
        ("alpha", JsonValue::Number("1".to_string())),
        ("alpha", JsonValue::Number("2".to_string())),
    ]);
    let canonical = canonical_json(&value);
    assert_eq!(keys(&canonical), vec!["alpha", "zeta"]);
    match canonical.get("alpha") {
        Some(JsonValue::Number(n)) => assert_eq!(n, "2"),
        other => panic!("unexpected {:?}", other),
    }
    match canonical.get("zeta") {
        Some(JsonValue::Array(items)) => assert_eq!(keys(&items[0]), vec!["a", "b"]),
        other => panic!("unexpected {:?}", other),
    }
}
