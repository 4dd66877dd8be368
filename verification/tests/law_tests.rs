//! One concrete instance of each law the library proves.

use workspace_ops::edit::{apply_edits, validate_edits_do_not_overlap, EditAction, LineEdit};
use workspace_ops::edit_args::{normalize_edit_op_value, parse_line_ref};
use workspace_ops::edit_prepare::prepare_file_edit;
use workspace_ops::grep::page_bounds;
use workspace_ops::hashline::{compute_anchor, format_as_hashlines, format_hashline, initial_prefix_hash_state, parse_anchor};
use workspace_ops::listing::{listing_item, sort_listing_items};
use workspace_ops::read::{read_chunk_from_lines, resolve_range};
use workspace_ops::replace::count_occurrences;
use workspace_ops::search::{match_window_char_range, GlobMatcher};
use workspace_ops::str_replace::replace_first;
use workspace_ops::utils::normalize_workspace_path_input;
use workspace_ops::write::add_numeric_suffix_to_filename;

fn anchors(content: &str) -> Vec<String> {
    format_as_hashlines(content)
        .lines()
        .map(|l| l.split('|').next().unwrap().split(':').nth(1).unwrap().to_string())
        .collect()
}

#[test]
fn anchors_are_six_hex_digits() {
    let mut state = initial_prefix_hash_state();
    let a = compute_anchor("fn main() {}", &mut state);
    assert_eq!(a.len(), 6);
    assert!(a.chars().all(|c| c.is_ascii_hexdigit()));
}

#[test]
fn anchors_depend_only_on_the_line_and_what_precedes_it() {
    let a = anchors("one\ntwo\nthree");
    let b = anchors("one\ntwo\nTHREE\nfour");
    assert_eq!(a[0], b[0]);
    assert_eq!(a[1], b[1]);
}

#[test]
fn hashline_layout_is_number_anchor_content() {
    let mut s1 = initial_prefix_hash_state();
    let mut s2 = initial_prefix_hash_state();
    let line = format_hashline(3, "abc", &mut s1);
    let anchor = compute_anchor("abc", &mut s2);
    assert_eq!(line, format!("3:{}|abc", anchor));
}

#[test]
fn a_line_reference_from_a_read_parses_back() {
    let a = anchors("x\ny");
    let r = parse_line_ref(&format!("2:{}", a[1]), "start");
    assert_eq!(r, Ok((2, Some(a[1].clone()))));
}

#[test]
fn fresh_anchors_are_accepted_by_an_edit() {
    let content = "a\nb\nc\n";
    let a = anchors(content);
    let edit = LineEdit {
        start_line: 2,
        end_line: 2,
        new_value: "B".to_string(),
        start_anchor: Some(a[1].clone()),
        end_anchor: None,
        action: EditAction::Replace,
    };
    let prepared = prepare_file_edit("f", content, vec![edit]);
    assert!(prepared.is_ok());
    assert_eq!(prepared.ok().unwrap().new_content, "a\nB\nc\n");
}

#[test]
fn read_ranges_are_ordered_and_start_at_one() {
    let (s, e) = resolve_range(10, Some(-3), Some(2));
    assert!(1 <= s && s <= e + 1);
    assert_eq!((s, e), (8, 9));
}

#[test]
fn op_normalisation_is_idempotent() {
    for v in ["REPLACE", "insert_after", "DELETE", "other"] {
        let once = normalize_edit_op_value(v);
        assert_eq!(normalize_edit_op_value(&once), once);
    }
}

#[test]
fn occurrences_fit_in_the_text() {
    let n = count_occurrences("abababab", "aba");
    assert!(n * 3 <= 8);
    assert_eq!(n, 2);
}

#[test]
fn a_truncated_read_continues_after_its_last_line() {
    let lines: Vec<String> = ["aaaa", "bbbb", "cccc"].iter().map(|s| s.to_string()).collect();
    let chunk = read_chunk_from_lines(&lines, 1, 3, false, 9).unwrap();
    assert!(chunk.truncated);
    assert_eq!(chunk.next_start_line, Some(chunk.displayed_end_line + 1));
    assert!(chunk.content.len() <= 9);
}

#[test]
fn the_match_window_holds_the_match() {
    let (start, end) = match_window_char_range(500, 200, Some((450, 10)));
    assert!(start <= 450 && 460 <= end && end - start <= 200);
}

#[test]
fn edits_change_the_line_count_by_their_deltas() {
    let edits = vec![
        LineEdit { start_line: 1, end_line: 1, new_value: "x\ny".to_string(), start_anchor: Some("000000".to_string()), end_anchor: None, action: EditAction::Replace },
        LineEdit { start_line: 3, end_line: 3, new_value: "z".to_string(), start_anchor: Some("000000".to_string()), end_anchor: None, action: EditAction::InsertAfter },
    ];
    let out = apply_edits(&["a", "b", "c"], &edits);
    assert_eq!(out.len(), 3 + 1 + 1);
}

#[test]
fn brace_expansion_is_bounded() {
    assert!(GlobMatcher::parse("{a,b}{c,d}{e,f}{g,h}{i,j}{k,l}{m,n}").is_err());
    assert_eq!(GlobMatcher::parse("*.{rs,toml}").ok().map(|m| m.len()), Some(2));
}

#[test]
fn path_normalisation_is_idempotent() {
    let once = normalize_workspace_path_input(Some("  src/a.rs "), ".").unwrap();
    assert_eq!(normalize_workspace_path_input(Some(&once), ".").unwrap(), once);
}

#[test]
fn listing_order_keeps_every_entry() {
    let mut items = vec![
        listing_item("b".to_string(), "file", Some(1)),
        listing_item("a".to_string(), "directory", None),
        listing_item("c".to_string(), "other", None),
    ];
    sort_listing_items(&mut items);
    let names: Vec<String> = items.iter().map(|i| i.name.clone().unwrap()).collect();
    assert_eq!(names, vec!["a", "b", "c"]);
}

#[test]
fn numbered_names_are_fresh() {
    let a = add_numeric_suffix_to_filename("notes.md", 1);
    let b = add_numeric_suffix_to_filename("notes.md", 2);
    assert_ne!(a, "notes.md");
    assert_ne!(a, b);
}

#[test]
fn pages_continue_where_the_note_says() {
    let first = page_bounds(7, 2, 3);
    let next = page_bounds(7, 2 + 3, 3);
    assert_eq!(first.1, next.0);
    assert_eq!(page_bounds(7, 2, 6), (first.0, next.1));
}

#[test]
fn replacing_by_itself_changes_nothing() {
    assert_eq!(replace_first("a-b-c", "b", "b"), "a-b-c");
    let r = replace_first("a-b-c", "b", "XYZ");
    assert_eq!(r.len(), 5 - 1 + 3);
    assert_eq!(&r[2..5], "XYZ");
}

#[test]
fn reverse_replacement_undoes_a_replacement() {
    let content = "fn main() {\n    run(1);\n}\n";
    let replaced = replace_first(content, "run(1)", "run(2)");
    assert_eq!(replace_first(&replaced, "run(2)", "run(1)"), content);
}

#[test]
fn any_hashline_prefix_parses_back() {
    for (n, content, start) in [(0usize, "a|b", 7u32), (42, "", 0xdead_beef), (usize::MAX, "x", 1)] {
        let mut state = start;
        let h = format_hashline(n, content, &mut state);
        let prefix = &h[..h.find('|').unwrap()];
        let anchor = prefix.split(':').nth(1).unwrap().to_string();
        assert_eq!(parse_line_ref(prefix, "start"), Ok((n, Some(anchor.clone()))));
        assert!(parse_anchor(&anchor).is_some());
    }
}

#[test]
fn a_clash_between_any_two_edits_is_caught() {
    // the second edit starts inside the first; a third edit comes last
    let edits = vec![edit_at(20, 20, EditAction::InsertAfter), edit_at(1, 10, EditAction::Replace), edit_at(5, 5, EditAction::Delete)];
    assert!(validate_edits_do_not_overlap(&edits).is_err());
    let fine = vec![edit_at(20, 20, EditAction::InsertAfter), edit_at(1, 4, EditAction::Replace), edit_at(5, 5, EditAction::Delete)];
    assert!(validate_edits_do_not_overlap(&fine).is_ok());
}

fn edit_at(start: usize, end: usize, action: EditAction) -> LineEdit {
    LineEdit { start_line: start, end_line: end, new_value: "x".to_string(), start_anchor: None, end_anchor: None, action }
}
