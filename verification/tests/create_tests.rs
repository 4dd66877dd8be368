use workspace_ops::create::{
    create_exists_refusal, create_next_steps, create_preview, create_refusal_message, created_file_message,
    created_file_message_text, is_permission_failure,
};
use workspace_ops::write::{parse_write_request, WriteRefusal};

#[test]
fn create_refuses_blank_path_with_guidance() {
    let refusal = match parse_write_request(Some("   "), Some("x"), None) {
        Err(r) => r,
        Ok(_) => panic!("a blank path is refused"),
    };
    assert!(matches!(refusal, WriteRefusal::EmptyPath));
    let g = create_refusal_message(&refusal).expect("guided");
    assert_eq!(g.message, "Path parameter cannot be empty");
    assert_eq!(
        g.guidance,
        vec![
            "Provide a file path relative to workspace root".to_string(),
            "Example: {\"path\": \"src/main.rs\"}".to_string(),
            "Use listDirectory('.') to explore available paths".to_string(),
        ]
    );
}

#[test]
fn create_refuses_traversal_and_leaves_missing_fields_to_the_caller() {
    let refusal = parse_write_request(Some("../x.rs"), Some("x"), None).err().expect("refused");
    let g = create_refusal_message(&refusal).expect("guided");
    assert_eq!(g.message, "Path traversal patterns (..) are not allowed");
    assert_eq!(g.guidance[1], "Example: 'src/main.rs' instead of '../src/main.rs'");

    let missing = parse_write_request(Some("a.rs"), None, None).err().expect("refused");
    assert!(matches!(&missing, WriteRefusal::MissingParameter { field } if field == "content"));
    assert!(create_refusal_message(&missing).is_none());
}

#[test]
fn existing_file_is_refused_with_both_alternatives() {
    let r = create_exists_refusal("src/lib.rs");
    assert_eq!(r.message, "File 'src/lib.rs' already exists - createFile cannot overwrite");
    assert_eq!(r.guidance.len(), 14);
    assert_eq!(r.guidance[1], "   → First: readFile(\"src/lib.rs\") to see current content");
    assert_eq!(r.guidance[2], "   → Then: editFile(\"src/lib.rs\", oldText, newText)");
    assert_eq!(r.guidance[4], "");
    assert_eq!(r.guidance[6], "   → First: deleteFile(\"src/lib.rs\")");
    assert_eq!(r.guidance[7], "   → Then: createFile(\"src/lib.rs\", newContent)");
    assert_eq!(r.guidance[13], "   • Complete rewrite → Use deleteFile + createFile");
}

#[test]
fn small_file_is_shown_whole() {
    let p = create_preview("a\r\nb\n");
    assert!(!p.truncated);
    assert_eq!(p.text, "a\r\nb\n");
}

#[test]
fn long_file_preview_stops_at_one_hundred_lines() {
    let content: String = (1..=150).map(|i| format!("line{i}\n")).collect();
    let p = create_preview(&content);
    assert!(p.truncated);
    let shown: Vec<String> = (1..=100).map(|i| format!("line{i}")).collect();
    let expected = format!("{}\n\n... ⚠️ TRUNCATED: Showing first 100 of 150 lines (66% shown)", shown.join("\n"));
    assert_eq!(p.text, expected);
}

#[test]
fn large_file_preview_is_cut_at_the_byte_limit() {
    let content = format!("{}\n{}", "a".repeat(51190), "b".repeat(20));
    let p = create_preview(&content);
    assert!(p.truncated);
    let expected = format!(
        "{}\n{}\n\n... ⚠️ TRUNCATED: Showing first 2 of 2 lines (100% shown)",
        "a".repeat(51190),
        "b".repeat(9)
    );
    assert_eq!(p.text, expected);
}

#[test]
fn next_steps_depend_on_the_kind_of_file() {
    assert_eq!(
        create_next_steps("cfg.json", false),
        vec![
            "- Content verified above (preview only)".to_string(),
            "- 🔍 Use `grep(\"cfg.json\", pattern)` to validate structure".to_string(),
            "- ✏️ Use `editFile(\"cfg.json\", oldText, newText)` for edits".to_string(),
            "- 🗑️ Use `deleteFile(\"cfg.json\")` to remove if needed".to_string(),
        ]
    );
    assert_eq!(
        create_next_steps("img.png", true),
        vec![
            "- Content verified above (preview only)".to_string(),
            "- 📖 Use `readFile(\"img.png\")` to see full content".to_string(),
            "- 🗑️ Use `deleteFile(\"img.png\")` to remove if needed".to_string(),
        ]
    );
}

#[test]
fn created_message_reports_size_lines_and_content() {
    let r = created_file_message_text("notes.md", "hello\nworld\n", "markdown");
    assert_eq!(r.bytes, 12);
    assert_eq!(r.lines, 2);
    assert!(!r.truncated);
    let expected = "**✅ File Created**\n\n**File:** `notes.md`\n**Size:** 12 B\n**Lines:** 2\n\n**Content:**\n```markdown\nhello\nworld\n\n```\n\n**Next Steps:**\n- Content verified above (preview only)\n- ✏️ Use `editFile(\"notes.md\", oldText, newText)` for edits\n- 🗑️ Use `deleteFile(\"notes.md\")` to remove if needed";
    assert_eq!(r.message, expected);
}

#[test]
fn created_message_names_the_language_of_the_extension() {
    let r = created_file_message("src/main.rs", "fn main() {}");
    assert!(r.message.contains("```rust\nfn main() {}\n```"));
    assert_eq!(r.lines, 1);
}

#[test]
fn permission_failures_are_recognised() {
    assert!(is_permission_failure("Permission denied (os error 13)"));
    assert!(is_permission_failure("no permission to write"));
    assert!(!is_permission_failure("No such file or directory"));
}
