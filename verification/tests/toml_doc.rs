use class_chat_bot::config_file::{config_update, DocNode};
use class_chat_bot::toml_doc::read_toml;
use class_chat_bot::toml_merge::TomlValue;

fn show(v: &TomlValue) -> String {
    match v {
        TomlValue::Scalar(s) => s.trim().to_string(),
        TomlValue::Array(a) => format!("[{}]", a.iter().map(show).collect::<Vec<_>>().join(",")),
        TomlValue::Table(t) => format!(
            "{{{}}}",
            t.iter().map(|(k, v)| format!("{}={}", k, show(v))).collect::<Vec<_>>().join(",")
        ),
    }
}

fn scalar(t: &str) -> TomlValue {
    TomlValue::Scalar(t.to_string())
}

#[test]
fn documents_are_read_into_tables_lists_and_text() {
    let text = "b = [1, 2]\na = 1\nc = []\n[t]\nx = \"s\"\n[[e]]\nn = 1\n[[e]]\nn = 2\n";
    let v = read_toml(text).expect("valid TOML");
    assert_eq!(
        show(&v),
        "{a=1,b=[1, 2],c=[],e=[{n=1},{n=2}],t={x=\"s\"}}"
    );
}

#[test]
fn a_text_that_is_not_toml_is_refused() {
    assert!(read_toml("a = \n").is_none());
    assert!(read_toml("[t]\n[t]\n").is_none());
}

#[test]
fn an_outdated_file_gets_the_merged_text() {
    let defaults = TomlValue::Table(vec![("a".to_string(), scalar("1")), ("b".to_string(), scalar("2"))]);
    let docs = DocNode::Node(
        String::new(),
        vec![
            ("a".to_string(), DocNode::Leaf("A".to_string())),
            ("b".to_string(), DocNode::Leaf("B".to_string())),
        ],
    );
    let updated = config_update("a = 5\n", &defaults, &docs).expect("valid TOML");
    let text = updated.expect("the file lacks b");
    assert_eq!(text, "# A\na = 5\n# B\nb = 2\n");
    assert_eq!(config_update(&text, &defaults, &docs), Ok(None));
    assert_eq!(config_update(&format!("\n{}\n\n", text), &defaults, &docs), Ok(None));
    assert_eq!(config_update("a = [", &defaults, &docs), Err(()));
}
