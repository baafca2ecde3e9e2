use class_chat_bot::toml_merge::{clone_toml, config_file_outdated, merge_toml_values, TomlValue};

fn sc(x: &str) -> TomlValue {
    TomlValue::Scalar(x.to_string())
}

fn table(entries: Vec<(&str, TomlValue)>) -> TomlValue {
    TomlValue::Table(entries.into_iter().map(|(k, v)| (k.to_string(), v)).collect())
}

fn show(v: &TomlValue) -> String {
    match v {
        TomlValue::Scalar(s) => s.clone(),
        TomlValue::Array(a) => format!("[{}]", a.iter().map(show).collect::<Vec<_>>().join(",")),
        TomlValue::Table(t) => format!(
            "{{{}}}",
            t.iter().map(|(k, v)| format!("{}={}", k, show(v))).collect::<Vec<_>>().join(",")
        ),
    }
}

#[test]
fn user_values_kept_and_new_defaults_added() {
    let mut defaults = table(vec![("a", sc("1")), ("b", table(vec![("c", sc("2"))]))]);
    let existing = table(vec![("b", table(vec![("d", sc("3"))])), ("e", sc("4"))]);
    merge_toml_values(&mut defaults, &existing);
    assert_eq!(show(&defaults), "{a=1,b={c=2,d=3},e=4}");
}

#[test]
fn existing_leaf_replaces_default() {
    let mut defaults = table(vec![("a", sc("1")), ("b", sc("2"))]);
    let existing = table(vec![("a", sc("9"))]);
    merge_toml_values(&mut defaults, &existing);
    assert_eq!(show(&defaults), "{a=9,b=2}");
}

#[test]
fn table_lists_take_the_first_default_item_as_template() {
    let mut defaults = TomlValue::Array(vec![table(vec![("x", sc("1")), ("y", sc("2"))])]);
    let existing = TomlValue::Array(vec![table(vec![("x", sc("5"))]), table(vec![("z", sc("6"))])]);
    merge_toml_values(&mut defaults, &existing);
    assert_eq!(show(&defaults), "[{x=5,y=2},{x=1,y=2,z=6}]");
}

#[test]
fn scalar_lists_are_replaced() {
    let mut defaults = TomlValue::Array(vec![sc("1")]);
    let existing = TomlValue::Array(vec![sc("2"), sc("3")]);
    merge_toml_values(&mut defaults, &existing);
    assert_eq!(show(&defaults), "[2,3]");
}

#[test]
fn mismatched_kinds_take_the_existing_value() {
    let mut defaults = table(vec![("a", sc("1"))]);
    let existing = sc("\"text\"");
    merge_toml_values(&mut defaults, &existing);
    assert_eq!(show(&defaults), "\"text\"");
}

#[test]
fn empty_default_list_keeps_items_as_written() {
    let mut defaults = TomlValue::Array(vec![]);
    let existing = TomlValue::Array(vec![table(vec![("k", sc("1"))])]);
    merge_toml_values(&mut defaults, &existing);
    assert_eq!(show(&defaults), "[{k=1}]");
}

#[test]
fn deep_copy_matches() {
    let v = table(vec![("a", TomlValue::Array(vec![sc("1"), table(vec![("b", sc("2"))])]))]);
    assert_eq!(show(&clone_toml(&v)), show(&v));
}

#[test]
fn outdated_file_detection_ignores_surrounding_whitespace() {
    assert!(!config_file_outdated("a = 1\n\n", "  a = 1"));
    assert!(config_file_outdated("a = 1", "a = 2"));
}
