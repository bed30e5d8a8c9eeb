use jview::display::{render, Cmd, DisplayConfig, TextColor};
use jview::json::Json;

/// Convert the external parser's value into the library's document shape.
/// Numbers keep the exact textual form the parser stored; object entries
/// keep their insertion order.
fn from_value(v: &serde_json::Value) -> Json {
    match v {
        serde_json::Value::Null => Json::Null,
        serde_json::Value::Bool(b) => Json::Bool(*b),
        serde_json::Value::Number(n) => Json::Num(n.to_string()),
        serde_json::Value::String(s) => Json::Str(s.clone()),
        serde_json::Value::Array(a) => Json::Arr(a.iter().map(from_value).collect()),
        serde_json::Value::Object(o) => {
            Json::Obj(o.iter().map(|(k, e)| (k.clone(), from_value(e))).collect())
        }
    }
}

/// The color-stripped text of a command sequence: what the terminal shows
/// once styling is ignored, with newlines in their plain form.
fn plain(cmds: &[Cmd]) -> String {
    let mut s = String::new();
    for c in cmds {
        match c {
            Cmd::Text(t) => s.push_str(t),
            Cmd::Spaces(n) => {
                for _ in 0..*n {
                    s.push(' ');
                }
            }
            Cmd::Newline => s.push('\n'),
            _ => {}
        }
    }
    s
}

fn render_text(doc: &Json) -> String {
    plain(&render(doc))
}

#[test]
fn empty_array_renders_inline() {
    let cmds = render(&Json::Arr(vec![]));
    assert_eq!(cmds, vec![Cmd::Text("[]".to_string())]);
    assert_eq!(render_text(&Json::Arr(vec![])), "[]");
}

#[test]
fn empty_object_renders_inline() {
    let cmds = render(&Json::Obj(vec![]));
    assert_eq!(cmds, vec![Cmd::Text("{}".to_string())]);
    assert_eq!(render_text(&Json::Obj(vec![])), "{}");
}

#[test]
fn one_element_array_layout() {
    let doc = Json::Arr(vec![Json::Num("1".to_string())]);
    let cmds = render(&doc);
    assert_eq!(
        cmds,
        vec![
            Cmd::Text("[".to_string()),
            Cmd::Newline,
            Cmd::Spaces(2),
            Cmd::Fg(TextColor::Num),
            Cmd::Text("1".to_string()),
            Cmd::ResetFg,
            Cmd::Newline,
            Cmd::Spaces(0),
            Cmd::Text("]".to_string()),
        ]
    );
    assert_eq!(render_text(&doc), "[\n  1\n]");
}

#[test]
fn null_renders_bold() {
    let cmds = render(&Json::Null);
    assert_eq!(
        cmds,
        vec![Cmd::Bold, Cmd::Text("null".to_string()), Cmd::ResetStyle]
    );
}

#[test]
fn booleans_render_in_bool_color() {
    assert_eq!(
        render(&Json::Bool(true)),
        vec![
            Cmd::Fg(TextColor::Bool),
            Cmd::Text("true".to_string()),
            Cmd::ResetFg,
        ]
    );
    assert_eq!(
        render(&Json::Bool(false)),
        vec![
            Cmd::Fg(TextColor::Bool),
            Cmd::Text("false".to_string()),
            Cmd::ResetFg,
        ]
    );
}

#[test]
fn number_keeps_stored_text() {
    let cmds = render(&Json::Num("1.50".to_string()));
    assert_eq!(
        cmds,
        vec![
            Cmd::Fg(TextColor::Num),
            Cmd::Text("1.50".to_string()),
            Cmd::ResetFg,
        ]
    );
}

#[test]
fn string_value_is_quoted_and_colored() {
    let cmds = render(&Json::Str("hi".to_string()));
    assert_eq!(
        cmds,
        vec![
            Cmd::Fg(TextColor::Str),
            Cmd::Text("\"".to_string()),
            Cmd::Text("hi".to_string()),
            Cmd::Text("\"".to_string()),
            Cmd::ResetFg,
        ]
    );
}

#[test]
fn string_contents_not_reescaped() {
    let doc = Json::Str("a\"b".to_string());
    assert_eq!(render_text(&doc), "\"a\"b\"");
}

#[test]
fn key_and_value_use_distinct_colors() {
    let doc = Json::Obj(vec![("k".to_string(), Json::Str("v".to_string()))]);
    let cmds = render(&doc);
    let fgs: Vec<TextColor> = cmds
        .iter()
        .filter_map(|c| match c {
            Cmd::Fg(role) => Some(*role),
            _ => None,
        })
        .collect();
    assert_eq!(fgs, vec![TextColor::Key, TextColor::Str]);
    assert_ne!(TextColor::Key, TextColor::Str);
}

#[test]
fn object_keeps_insertion_order() {
    let value: serde_json::Value = serde_json::from_str(r#"{"b":2,"a":1}"#).unwrap();
    let doc = from_value(&value);
    assert_eq!(render_text(&doc), "{\n  \"b\": 2,\n  \"a\": 1\n}");
}

#[test]
fn nested_arrays_indent_additively() {
    let inner = Json::Arr(vec![Json::Num("1".to_string())]);
    let doc = Json::Arr(vec![inner]);
    assert_eq!(render_text(&doc), "[\n  [\n    1\n  ]\n]");
}

#[test]
fn deep_nesting_indents_two_more_per_level() {
    let text = r#"[1,[2,[3]]]"#;
    let value: serde_json::Value = serde_json::from_str(text).unwrap();
    let doc = from_value(&value);
    assert_eq!(
        render_text(&doc),
        "[\n  1,\n  [\n    2,\n    [\n      3\n    ]\n  ]\n]"
    );
}

#[test]
fn cursor_returns_to_entry_value() {
    let value: serde_json::Value =
        serde_json::from_str(r#"{"a":[1,{"b":[[]]}],"c":null}"#).unwrap();
    let doc = from_value(&value);
    let mut d = DisplayConfig::new();
    d.indent = 6;
    d.print_json(&doc);
    assert_eq!(d.indent, 6);
}

#[test]
fn trailing_comma_only_between_elements() {
    let value: serde_json::Value = serde_json::from_str(r#"[1,2]"#).unwrap();
    let doc = from_value(&value);
    assert_eq!(render_text(&doc), "[\n  1,\n  2\n]");
}

#[test]
fn round_trip_through_parser() {
    let inputs = [
        "null",
        "true",
        "false",
        "0",
        "-12",
        "1.5",
        "\"hello\"",
        "\"\"",
        "[]",
        "{}",
        "[null,true,1,\"x\"]",
        "[[],[[]],{}]",
        r#"{"b":2,"a":1}"#,
        r#"{"outer":{"inner":[1,2,3],"flag":false},"tail":"end"}"#,
    ];
    for text in inputs {
        let value: serde_json::Value = serde_json::from_str(text).unwrap();
        let doc = from_value(&value);
        let reparsed: serde_json::Value = serde_json::from_str(&render_text(&doc)).unwrap();
        assert_eq!(reparsed, value, "round trip failed for {}", text);
    }
}
