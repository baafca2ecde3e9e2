use class_chat_bot::config::{AppConfig, CrawlerConfig};
use class_chat_bot::config_file::{escape_toml_key, extract_docs, generate_toml_with_comments, DocNode};
use class_chat_bot::toml_merge::TomlValue;

fn leaf(t: &str) -> DocNode {
    DocNode::Leaf(t.to_string())
}

fn node(t: &str, c: Vec<(&str, DocNode)>) -> DocNode {
    DocNode::Node(t.to_string(), c.into_iter().map(|(k, d)| (k.to_string(), d)).collect())
}

fn scalar(t: &str) -> TomlValue {
    TomlValue::Scalar(t.to_string())
}

fn table(c: Vec<(&str, TomlValue)>) -> TomlValue {
    TomlValue::Table(c.into_iter().map(|(k, v)| (k.to_string(), v)).collect())
}

#[test]
fn bare_keys_are_written_as_they_are() {
    assert_eq!(escape_toml_key("admin_roles"), "admin_roles");
    assert_eq!(escape_toml_key("a-b_9Z"), "a-b_9Z");
}

#[test]
fn other_keys_are_quoted() {
    assert_eq!(escape_toml_key("*"), "\"*\"");
    assert_eq!(escape_toml_key("a.b"), "\"a.b\"");
    assert_eq!(escape_toml_key(""), "\"\"");
    assert_eq!(escape_toml_key("say \"hi\""), "\"say \\\"hi\\\"\"");
    assert_eq!(escape_toml_key("學號"), "\"學號\"");
}

#[test]
fn doc_lines_are_joined_and_trimmed() {
    let lines = vec![" 角色權限設定".to_string(), " 第二行 ".to_string()];
    assert_eq!(extract_docs(&lines), "角色權限設定\n 第二行");
    assert_eq!(extract_docs(&Vec::new()), "");
}

#[test]
fn settings_come_sorted_with_their_descriptions() {
    let docs = node(
        "Top",
        vec![("b", leaf("B doc")), ("a", leaf("A doc")), ("t", node("T doc", vec![("x", leaf("X doc"))]))],
    );
    let value = table(vec![
        ("t", table(vec![("x", scalar("1"))])),
        ("b", scalar("\"s\"")),
        ("a", scalar(" 2 ")),
    ]);
    assert_eq!(
        generate_toml_with_comments(&docs, &value),
        "# Top\n\n# A doc\na = 2\n# B doc\nb = \"s\"\n\n# T doc\n[t]\n# X doc\nx = 1\n"
    );
}

#[test]
fn a_head_without_plain_settings_is_marked() {
    let docs = node("Top", vec![("t", node("", vec![]))]);
    let value = table(vec![("t", table(vec![]))]);
    assert_eq!(generate_toml_with_comments(&docs, &value), "# Top\n#\n\n[t]\n");
}

#[test]
fn lists_of_tables_become_sections() {
    let docs = node("", vec![("e", node("E", vec![("n", leaf("N"))])), ("k", leaf("K"))]);
    let value = table(vec![
        ("e", TomlValue::Array(vec![table(vec![("n", scalar("1"))]), table(vec![("n", scalar("2"))])])),
        ("k", TomlValue::Array(vec![])),
    ]);
    assert_eq!(
        generate_toml_with_comments(&docs, &value),
        "# K\nk = []\n\n# E\n[[e]]\n# N\nn = 1\n\n[[e]]\n# N\nn = 2\n"
    );
}

#[test]
fn nested_sections_carry_the_whole_path() {
    let docs = node("", vec![("a b", node("", vec![("c", node("C", vec![("d", leaf(""))]))]))]);
    let value = table(vec![("a b", table(vec![("c", table(vec![("d", scalar("true"))]))]))]);
    assert_eq!(
        generate_toml_with_comments(&docs, &value),
        "\n[\"a b\"]\n\n# C\n[\"a b\".c]\nd = true\n"
    );
}

#[test]
fn entries_of_a_map_get_only_their_heading() {
    let docs = node("", vec![("m", node("Map", vec![("*", node("Route", vec![("x", leaf("X"))]))]))]);
    let value = table(vec![("m", table(vec![("g1", table(vec![("x", scalar("1"))]))]))]);
    assert_eq!(generate_toml_with_comments(&docs, &value), "\n# Map\n[m]\n\n[m.g1]\n");
}

#[test]
fn an_empty_table_gets_only_its_heading() {
    let docs = node("", vec![("t", node("T", vec![("x", leaf("X"))]))]);
    let value = table(vec![("t", table(vec![]))]);
    assert_eq!(generate_toml_with_comments(&docs, &value), "\n# T\n[t]\n");
}

#[test]
fn configuration_descriptions_name_the_settings() {
    match AppConfig::get_recursive_docs() {
        DocNode::Node(doc, children) => {
            assert_eq!(doc, "主應用程式設定");
            let keys: Vec<&str> = children.iter().map(|(k, _)| k.as_str()).collect();
            assert_eq!(keys, vec!["roles", "class_students", "link_chat", "crawler_system"]);
        }
        DocNode::Leaf(_) => panic!("expected a table description"),
    }
    match CrawlerConfig::get_recursive_docs() {
        DocNode::Node(doc, children) => {
            assert_eq!(doc, "主爬蟲設定");
            assert_eq!(children.len(), 4);
        }
        DocNode::Leaf(_) => panic!("expected a table description"),
    }
}
