use chrono::{SecondsFormat, TimeZone, Utc};
use class_chat_bot::template::{CompiledTemplate, Value};

fn s(x: &str) -> Value {
    Value::Str(x.to_string())
}

fn obj(entries: Vec<(&str, Value)>) -> Value {
    Value::Object(entries.into_iter().map(|(k, v)| (k.to_string(), v)).collect())
}

fn sample() -> Value {
    let ts = Utc
        .with_ymd_and_hms(2026, 5, 20, 13, 14, 0)
        .unwrap()
        .to_rfc3339_opts(SecondsFormat::AutoSi, true);
    obj(vec![
        ("name", s("Alice")),
        ("is_active", Value::Bool(true)),
        (
            "users",
            Value::Array(vec![obj(vec![("name", s("Bob"))]), obj(vec![("name", s("Carol"))])]),
        ),
        ("timestamp", Value::Str(ts)),
        ("tags", Value::Array(vec![s("Rust"), s("Template"), s("Engine")])),
    ])
}

#[test]
fn test_variable() {
    let tpl = CompiledTemplate::compile("Hello {name}");
    assert_eq!(tpl.render(&sample()), "Hello Alice");
}

#[test]
fn test_filter() {
    let tpl = CompiledTemplate::compile("{name|upper}");
    assert_eq!(tpl.render(&sample()), "ALICE");
}

#[test]
fn test_if() {
    let tpl = CompiledTemplate::compile("{#if is_active}ACTIVE{/if}");
    assert_eq!(tpl.render(&sample()), "ACTIVE");
}

#[test]
fn test_each() {
    let tpl = CompiledTemplate::compile("{#each users}{name} {/each}");
    assert_eq!(tpl.render(&sample()), "Bob Carol ");
}

#[test]
fn test_date() {
    let tpl = CompiledTemplate::compile("{timestamp:%Y-%m-%d}");
    assert_eq!(tpl.render(&sample()), "2026-05-20");
}

#[test]
fn test_join_filter() {
    let tpl = CompiledTemplate::compile("Tags: {tags|join ', '}");
    assert_eq!(tpl.render(&sample()), "Tags: Rust, Template, Engine");
}

#[test]
fn template_escaped_braces_are_literal() {
    let tpl = CompiledTemplate::compile("{{name}} and {name}");
    assert_eq!(tpl.render(&sample()), "{name} and Alice");
}

#[test]
fn template_missing_variable_renders_nothing() {
    let tpl = CompiledTemplate::compile("[{missing}]");
    assert_eq!(tpl.render(&sample()), "[]");
}

#[test]
fn template_nested_path_and_filters() {
    let ctx = obj(vec![("user", obj(vec![("name", s("  Dana  "))]))]);
    let tpl = CompiledTemplate::compile("<{user.name|trim|lower}> {user.name|len}");
    assert_eq!(tpl.render(&ctx), "<dana> 8");
}

#[test]
fn template_numbers_and_booleans() {
    let ctx = obj(vec![("n", Value::Number(-42)), ("b", Value::Bool(false)), ("z", Value::Number(0))]);
    let tpl = CompiledTemplate::compile("{n} {b}{#if z}Z{/if}{#if n}N{/if}");
    assert_eq!(tpl.render(&ctx), "-42 falseN");
}

#[test]
fn template_join_skips_non_scalars() {
    let ctx = obj(vec![(
        "xs",
        Value::Array(vec![s("a"), Value::Number(7), Value::Null, Value::Bool(true)]),
    )]);
    let tpl = CompiledTemplate::compile("{xs|join \"-\"}");
    assert_eq!(tpl.render(&ctx), "a-7-true");
}

#[test]
fn template_unclosed_brace_repeats_prefix() {
    // An unclosed `{` flushes the pending text once more at the end.
    let tpl = CompiledTemplate::compile("ab{cd");
    assert_eq!(tpl.render(&sample()), "abab{cd");
}

#[test]
fn template_invalid_time_pattern_is_refused() {
    let tpl = CompiledTemplate::compile("{timestamp:%Q}");
    assert_eq!(tpl.try_render(&sample()), None);
    let tpl = CompiledTemplate::compile("{name:%Y}");
    assert_eq!(tpl.try_render(&sample()), Some("Alice".to_string()));
}
