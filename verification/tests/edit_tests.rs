use workspace_ops::edit::{apply_edits, EditAction, LineEdit};

fn make_edit(line: usize, val: &str, action: EditAction) -> LineEdit {
    LineEdit {
        start_line: line,
        end_line: line,
        new_value: val.to_string(),
        start_anchor: None,
        end_anchor: None,
        action,
    }
}

#[test]
fn test_insert_at_top() {
    let orig = vec!["line1", "line2"];
    let edits = vec![make_edit(0, "header", EditAction::InsertAfter)];
    let res = apply_edits(&orig, &edits);
    assert_eq!(res, vec!["header", "line1", "line2"]);
}

#[test]
fn test_replace_and_insert() {
    let orig = vec!["a", "b", "c"];
    let edits = vec![
        make_edit(1, "A", EditAction::Replace),
        make_edit(2, "B+", EditAction::InsertAfter),
    ];
    let res = apply_edits(&orig, &edits);
    assert_eq!(res, vec!["A", "b", "B+", "c"]);
}
