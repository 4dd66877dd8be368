use workspace_ops::edit_messages::{batch_write_failed_message, rollback_failure_text};
use workspace_ops::edit::{validate_edits_do_not_overlap, EditAction, LineEdit, OverlapError};
use workspace_ops::edit_args::{
    infer_legacy_edit_op, normalize_edit_op_value, parse_line_ref, FieldValue,
};
use workspace_ops::edit_files::build_edit_files_success;
use workspace_ops::edit_messages::{prepare_error_guidance_lines, prepare_error_message};
use workspace_ops::edit_parse::{
    edit_error_guidance, edit_path, format_edit_label, parse_line_edit, EditFields,
    ParseEditError,
};
use workspace_ops::edit_prepare::{prepare_file_edit, AnchorError, PrepareError};
use workspace_ops::edit_report::build_diff_with_anchors;
use workspace_ops::hashline::format_as_hashlines;

fn anchors_of(content: &str) -> Vec<String> {
    format_as_hashlines(content)
        .lines()
        .map(|l| {
            let prefix = l.split('|').next().unwrap();
            prefix.split(':').nth(1).unwrap().to_string()
        })
        .collect()
}

fn fields() -> EditFields {
    EditFields {
        path: Some("src/a.ts".to_string()),
        op: None,
        start_line: None,
        end_line_present: false,
        end_line: None,
        content: None,
        start_anchor: None,
        end_anchor: None,
    }
}

#[test]
fn line_refs_are_parsed() {
    assert_eq!(
        parse_line_ref(" 42:a31f2c ", "start"),
        Ok((42, Some("a31f2c".to_string())))
    );
    assert_eq!(parse_line_ref("0", "start"), Ok((0, None)));
    assert_eq!(
        parse_line_ref("", "start"),
        Err("'start' must be a non-empty \"N:anchor\" string".to_string())
    );
    assert_eq!(
        parse_line_ref("42:a31f2c|let x", "end"),
        Err("'end' must be only the \"N:anchor\" prefix from readFile output (e.g. \"42:a31f2c\"), not the trailing '|content'".to_string())
    );
    assert_eq!(
        parse_line_ref("42", "start"),
        Err("'start' must use \"N:anchor\" format (e.g. \"42:a31f2c\"). Copy the prefix before '|' from workspace__readFile(showLineAnchors=true).".to_string())
    );
    assert_eq!(
        parse_line_ref("x1:a31f2c", "start"),
        Err("'start' line number must be an integer (e.g. \"42:a31f2c\"), got 'x1'".to_string())
    );
    assert_eq!(
        parse_line_ref("4: ", "start"),
        Err("'start' is missing the anchor after ':' (e.g. \"42:a31f2c\")".to_string())
    );
    assert_eq!(
        parse_line_ref("4:xyz", "start"),
        Err("'start' anchor must be the 6-character hex code from readFile (e.g. \"42:a31f2c\"), got 'xyz'".to_string())
    );
}

#[test]
fn op_names_are_normalised() {
    assert_eq!(normalize_edit_op_value("REPLACE"), "replace");
    assert_eq!(normalize_edit_op_value("INSERT_AFTER"), "insert_after");
    assert_eq!(normalize_edit_op_value("delete"), "delete");
    assert_eq!(normalize_edit_op_value("Replace"), "Replace");
}

#[test]
fn legacy_ops_are_inferred() {
    assert_eq!(infer_legacy_edit_op(Some(true), &None), Some("insert_after"));
    assert_eq!(infer_legacy_edit_op(None, &Some(FieldValue::Str(String::new()))), Some("delete"));
    assert_eq!(infer_legacy_edit_op(Some(false), &Some(FieldValue::Str("x".to_string()))), Some("replace"));
    assert_eq!(infer_legacy_edit_op(None, &Some(FieldValue::Other)), Some("replace"));
    assert_eq!(infer_legacy_edit_op(None, &None), None);
}

#[test]
fn edit_labels_name_the_known_fields() {
    let mut f = fields();
    f.op = Some("replace".to_string());
    f.start_line = Some(10);
    f.end_line = Some(12);
    assert_eq!(
        format_edit_label(&f, 3),
        "Edit at index 3 [path='src/a.ts', op='replace', startLine=10, endLine=12]"
    );
    let mut g = fields();
    g.path = Some("   ".to_string());
    assert_eq!(format_edit_label(&g, 0), "Edit at index 0");
}

#[test]
fn edits_are_parsed_or_refused_by_rule() {
    let mut f = fields();
    let e = parse_line_edit(&f, 0).err().unwrap();
    assert!(matches!(e.kind, ParseEditError::MissingStart));
    assert_eq!(e.message, "Edit at index 0 [path='src/a.ts']: 'start' (or startLine) is required");
    assert_eq!(edit_error_guidance(&e.kind).len(), 3);

    f.start_line = Some(0);
    f.content = Some(FieldValue::Str("header".to_string()));
    let top = parse_line_edit(&f, 0).ok().unwrap();
    assert_eq!(top.action, EditAction::InsertAfter);
    assert_eq!(top.start_line, 0);
    assert_eq!(top.end_line, 0);
    assert_eq!(top.new_value, "header");
    assert_eq!(top.start_anchor, None);

    f.op = Some("replace".to_string());
    let e = parse_line_edit(&f, 1).err().unwrap();
    assert_eq!(
        e.message,
        "Edit at index 1 [path='src/a.ts', op='replace', startLine=0]: 'start' must be a 1-based \"N:anchor\" for 'replace' edits"
    );

    f.op = Some("move".to_string());
    let e = parse_line_edit(&f, 1).err().unwrap();
    assert!(e.message.ends_with(": invalid op 'move'"));

    f.op = None;
    f.start_line = Some(5);
    f.end_line_present = true;
    f.end_line = Some(3);
    let e = parse_line_edit(&f, 2).err().unwrap();
    assert!(e.message.ends_with(": 'end' line (3) must be ≥ 'start' line (5)"), "{}", e.message);

    f.end_line = Some(5);
    let e = parse_line_edit(&f, 2).err().unwrap();
    assert!(e.message.ends_with(": 'end' must be omitted for single-line replace edits"), "{}", e.message);

    f.end_line_present = false;
    f.end_line = None;
    let e = parse_line_edit(&f, 2).err().unwrap();
    assert!(matches!(e.kind, ParseEditError::MissingAnchor));
    assert!(e.message.ends_with(" targets existing content and requires 'anchor' (use start: \"N:anchor\")"));

    f.start_anchor = Some("a31f2c".to_string());
    let ok = parse_line_edit(&f, 2).ok().unwrap();
    assert_eq!(ok.action, EditAction::Replace);
    assert_eq!((ok.start_line, ok.end_line), (5, 5));
    assert_eq!(ok.start_anchor, Some("a31f2c".to_string()));

    f.op = Some("delete".to_string());
    let e = parse_line_edit(&f, 2).err().unwrap();
    assert!(matches!(e.kind, ParseEditError::DeleteWithContent));
    f.content = None;
    let del = parse_line_edit(&f, 2).ok().unwrap();
    assert_eq!(del.action, EditAction::Delete);
    assert_eq!(del.new_value, "");

    f.end_line_present = true;
    f.end_line = Some(8);
    let e = parse_line_edit(&f, 2).err().unwrap();
    assert!(matches!(e.kind, ParseEditError::MissingEndAnchor));

    f.op = Some("insert_after".to_string());
    f.content = Some(FieldValue::Other);
    let e = parse_line_edit(&f, 2).err().unwrap();
    assert!(matches!(e.kind, ParseEditError::EndWithInsert));
    f.end_line_present = false;
    f.end_line = None;
    let e = parse_line_edit(&f, 2).err().unwrap();
    assert!(matches!(e.kind, ParseEditError::ContentNotString));
    f.content = None;
    let e = parse_line_edit(&f, 2).err().unwrap();
    assert!(matches!(e.kind, ParseEditError::ContentMissing));
}

#[test]
fn edit_paths_are_trimmed_and_required() {
    assert_eq!(edit_path(&Some(" a.rs ".to_string()), 0), Ok("a.rs".to_string()));
    assert_eq!(
        edit_path(&None, 4),
        Err("Edit at index 4: 'path' field is required and must be a non-empty string".to_string())
    );
}

fn edit(start: usize, end: usize, value: &str, action: EditAction, a: Option<String>, b: Option<String>) -> LineEdit {
    LineEdit {
        start_line: start,
        end_line: end,
        new_value: value.to_string(),
        start_anchor: a,
        end_anchor: b,
        action,
    }
}

#[test]
fn overlapping_edits_are_refused() {
    let es = vec![
        edit(3, 5, "x", EditAction::Replace, None, None),
        edit(5, 5, "y", EditAction::Replace, None, None),
    ];
    assert_eq!(
        validate_edits_do_not_overlap(&es),
        Err(OverlapError::Overlapping { first: 0, second: 1 })
    );
    let tops = vec![
        edit(0, 0, "a", EditAction::InsertAfter, None, None),
        edit(0, 0, "b", EditAction::InsertAfter, None, None),
    ];
    assert_eq!(
        validate_edits_do_not_overlap(&tops),
        Err(OverlapError::ConflictingTopInserts { first: 0, second: 1 })
    );
    let fine = vec![
        edit(4, 4, "y", EditAction::Replace, None, None),
        edit(1, 2, "x", EditAction::Replace, None, None),
    ];
    assert_eq!(validate_edits_do_not_overlap(&fine), Ok(()));
}

#[test]
fn batches_are_prepared_against_current_anchors() {
    let content = "one\ntwo\nthree\nfour\n";
    let anchors = anchors_of(content);
    let edits = vec![
        edit(2, 3, "TWO\nTHREE\nEXTRA", EditAction::Replace, Some(anchors[1].clone()), Some(anchors[2].clone())),
        edit(0, 0, "top", EditAction::InsertAfter, None, None),
    ];
    let batch = prepare_file_edit("f.txt", content, edits).ok().unwrap();
    assert_eq!(batch.new_content, "top\none\nTWO\nTHREE\nEXTRA\nfour\n");
    assert_eq!(batch.original_line_count, 4);
    let fresh = format_as_hashlines(&batch.new_content);
    let fresh_lines: Vec<&str> = fresh.lines().collect();
    assert_eq!(batch.new_hash_sections, vec![fresh_lines[0].to_string(), fresh_lines[2..5].join("\n")]);

    let diff: String = build_diff_with_anchors(&batch).into_iter().collect();
    assert!(diff.contains("+ 1:"), "{diff}");
    assert!(diff.contains("- 2:"), "{diff}");
    assert!(diff.contains("|EXTRA"), "{diff}");

    let report = build_edit_files_success(&[batch]);
    assert_eq!(report.file_count, 1);
    assert_eq!(report.edit_count, 2);
    assert_eq!(report.files[0].line_count_after, 6);
    assert!(report.message.starts_with("Applied 2 edit(s) across 1 file(s)\n\nFile: 'f.txt'\nChanges:\n  Replace lines 2-3: 3 line(s)\n  Insert after line 0: 1 line(s)\nSummary: 4 lines in, 6 lines out"));
    assert!(report.message.contains("New anchors:\n```\n"));
    assert!(report.next_actions[0].starts_with("Anchors above are current"));
}

#[test]
fn stale_anchors_are_refused_with_a_message() {
    let content = "one\ntwo\n";
    let anchors = anchors_of("one\nTWO\n");
    let edits = vec![edit(2, 2, "2", EditAction::Replace, Some(anchors[1].clone()), None)];
    let err = prepare_file_edit("f.txt", content, edits).err().unwrap();
    assert_eq!(err, PrepareError::Anchor(AnchorError::StaleAnchor { line: 2 }));
    assert_eq!(
        prepare_error_message("f.txt", &err),
        "File 'f.txt': STALE ANCHOR on line 2 (current line content changed)"
    );
    assert_eq!(prepare_error_guidance_lines(&err).len(), 2);

    let far = vec![edit(9, 9, "x", EditAction::Replace, Some("abcdef".to_string()), None)];
    let err = prepare_file_edit("f.txt", content, far).err().unwrap();
    assert_eq!(
        prepare_error_message("f.txt", &err),
        "File 'f.txt': line 9 does not exist (file has 2 lines)"
    );
}

#[test]
fn deletions_report_no_new_anchors() {
    let content = "a\nb\nc";
    let anchors = anchors_of(content);
    let edits = vec![edit(2, 2, "", EditAction::Delete, Some(anchors[1].clone()), None)];
    let batch = prepare_file_edit("g.txt", content, edits).ok().unwrap();
    assert_eq!(batch.new_content, "a\nc");
    assert!(batch.new_hash_sections.is_empty());
    let report = build_edit_files_success(&[batch]);
    assert!(report.message.contains("Anchor refresh: no new anchors were generated"));
    assert_eq!(
        report.next_actions[0],
        "No new anchors were generated because these edits only removed existing lines"
    );
}

#[test]
fn batch_write_failure_names_unrestored_files() {
    let g = batch_write_failed_message("b.rs", "disk full", &[]);
    assert_eq!(g.message, "Failed to write 'b.rs': disk full");
    assert_eq!(g.guidance[0], "Any earlier writes in this request were rolled back.");
    let failures = vec![rollback_failure_text("a.rs", "denied"), rollback_failure_text("c.rs", "gone")];
    let g = batch_write_failed_message("b.rs", "disk full", &failures);
    assert_eq!(g.guidance[0], "Rollback failed for: a.rs (denied), c.rs (gone)");
    assert_eq!(g.guidance.len(), 3);
}
