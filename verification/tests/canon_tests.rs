use workspace_ops::edit_canon::{canonicalize_edit_object, edit_fields, CanonicalEdit, JsonValue};
use workspace_ops::edit_parse::parse_line_edit;
use workspace_ops::edit::EditAction;

fn s(v: &str) -> JsonValue {
    JsonValue::Str(v.to_string())
}

fn fields(pairs: Vec<(&str, JsonValue)>) -> Vec<(String, JsonValue)> {
    let mut v: Vec<(String, JsonValue)> = pairs.into_iter().map(|(k, x)| (k.to_string(), x)).collect();
    v.sort_by(|a, b| a.0.cmp(&b.0));
    v
}

fn text(v: &Option<JsonValue>) -> Option<String> {
    match v {
        Some(JsonValue::Str(t)) => Some(t.clone()),
        _ => None,
    }
}

fn uint(v: &Option<JsonValue>) -> Option<u64> {
    match v {
        Some(JsonValue::UInt(n)) => Some(*n),
        _ => None,
    }
}

fn canon(pairs: Vec<(&str, JsonValue)>) -> CanonicalEdit {
    match canonicalize_edit_object(&fields(pairs)) {
        Ok(c) => c,
        Err(m) => panic!("unexpected refusal: {m}"),
    }
}

fn refusal(pairs: Vec<(&str, JsonValue)>) -> String {
    match canonicalize_edit_object(&fields(pairs)) {
        Ok(_) => panic!("expected a refusal"),
        Err(m) => m,
    }
}

#[test]
fn start_and_end_references_are_expanded() {
    let c = canon(vec![
        ("path", s("a.rs")),
        ("start", s("3:a1b2c3")),
        ("end", s("5:d4e5f6")),
        ("content", s("x")),
        ("op", s("REPLACE")),
    ]);
    assert_eq!(text(&c.op).as_deref(), Some("replace"));
    assert_eq!(uint(&c.start_line), Some(3));
    assert_eq!(text(&c.start_anchor).as_deref(), Some("a1b2c3"));
    assert_eq!(uint(&c.end_line), Some(5));
    assert_eq!(text(&c.end_anchor).as_deref(), Some("d4e5f6"));
    assert_eq!(text(&c.content).as_deref(), Some("x"));
    assert!(c.others.is_empty());
}

#[test]
fn top_reference_has_no_anchor() {
    let c = canon(vec![("start", s("0")), ("content", s("header"))]);
    assert_eq!(uint(&c.start_line), Some(0));
    assert!(c.start_anchor.is_none());
    assert!(c.op.is_none());
}

#[test]
fn bad_references_are_refused() {
    assert_eq!(refusal(vec![("start", JsonValue::UInt(3))]), "'start' must be a string (e.g. \"42:a31f2c\")");
    assert_eq!(refusal(vec![("end", JsonValue::Bool(true))]), "'end' must be a string (e.g. \"72:b47aa1\")");
    assert_eq!(
        refusal(vec![("start", s("1:abcdef")), ("end", s("0"))]),
        "'end' cannot be \"0\"; omit end for single-line edits or use a 1-based range"
    );
    assert_eq!(refusal(vec![("start", s(""))]), "'start' must be a non-empty \"N:anchor\" string");
}

#[test]
fn legacy_fields_imply_the_op() {
    let del = canon(vec![("line", JsonValue::UInt(4)), ("new_value", s(""))]);
    assert_eq!(text(&del.op).as_deref(), Some("delete"));
    assert_eq!(uint(&del.start_line), Some(4));
    assert!(del.content.is_none());

    let rep = canon(vec![("line", JsonValue::UInt(4)), ("new_value", s("y"))]);
    assert_eq!(text(&rep.op).as_deref(), Some("replace"));
    assert_eq!(text(&rep.content).as_deref(), Some("y"));

    let ins = canon(vec![("afterLine", JsonValue::UInt(2)), ("insertAfter", JsonValue::Bool(true)), ("content", s("z"))]);
    assert_eq!(text(&ins.op).as_deref(), Some("insert_after"));
    assert_eq!(uint(&ins.start_line), Some(2));
}

#[test]
fn action_yields_to_op_and_aliases_are_folded() {
    let c = canon(vec![("action", s("delete")), ("op", s("INSERT_AFTER")), ("anchor", s("abcdef")), ("line", JsonValue::UInt(9))]);
    assert_eq!(text(&c.op).as_deref(), Some("insert_after"));
    assert_eq!(text(&c.start_anchor).as_deref(), Some("abcdef"));
    let only_action = canon(vec![("action", s("DELETE")), ("line", JsonValue::UInt(1))]);
    assert_eq!(text(&only_action.op).as_deref(), Some("delete"));
    let nulls = canon(vec![("op", JsonValue::Null), ("content", JsonValue::Null), ("endLine", JsonValue::Null)]);
    assert!(nulls.op.is_none() && nulls.content.is_none() && nulls.end_line.is_none());
}

#[test]
fn bare_content_goes_to_the_top_and_unknown_fields_stay() {
    let c = canon(vec![("content", s("hello")), ("note", JsonValue::Other(7))]);
    assert_eq!(uint(&c.start_line), Some(0));
    assert_eq!(c.others.len(), 1);
    assert_eq!(c.others[0].0, "note");
    assert!(matches!(c.others[0].1, JsonValue::Other(7)));
    let anchored = canon(vec![("content", s("hello")), ("endAnchor", s("abcdef"))]);
    assert!(anchored.start_line.is_none());
    let empty = canon(vec![("content", s(""))]);
    assert!(empty.start_line.is_none());
}

#[test]
fn canonical_fields_parse_into_a_line_edit() {
    let c = canon(vec![("start", s("2:a1b2c3")), ("content", s("new"))]);
    let f = edit_fields(&c);
    assert!(f.path.is_none());
    assert_eq!(f.start_line, Some(2));
    let e = match parse_line_edit(&f, 0) {
        Ok(e) => e,
        Err(_) => panic!("expected an edit"),
    };
    assert_eq!(e.start_line, 2);
    assert_eq!(e.end_line, 2);
    assert_eq!(e.new_value, "new");
    assert!(matches!(e.action, EditAction::Replace));
    assert_eq!(e.start_anchor.as_deref(), Some("a1b2c3"));
}
