use workspace_ops::delete::{
    check_delete_path, check_import_file_args, delete_failed_message, deleted_message, directory_refusal_message,
    format_import_report, import_failed_message, import_source_is_directory_message, import_source_not_found_message,
    imported_file_message,
};
use workspace_ops::read_args::{
    check_read_path, format_read_reply, parse_offset_parameter, parse_show_line_anchors, parse_size_parameter, IntArg,
};

#[test]
fn read_offset_and_size_arguments() {
    assert_eq!(parse_offset_parameter(IntArg::Absent).ok(), Some(None));
    assert_eq!(parse_offset_parameter(IntArg::Int(-100)).ok(), Some(Some(-100)));
    let e = parse_offset_parameter(IntArg::NotInt).err().unwrap();
    assert_eq!(e.message, "offset must be an integer");
    assert_eq!(e.guidance, vec!["Use an integer like {\"offset\": 10} or {\"offset\": -100}"]);
    assert_eq!(parse_size_parameter(IntArg::Int(50)).ok(), Some(Some(50)));
    let z = parse_size_parameter(IntArg::Int(0)).err().unwrap();
    assert_eq!(z.message, "size must be non-zero");
    assert_eq!(z.guidance.len(), 2);
    assert_eq!(parse_size_parameter(IntArg::NotInt).err().unwrap().message, "size must be an integer");
    assert!(parse_show_line_anchors(true, Some(true)));
    assert!(!parse_show_line_anchors(false, Some(true)));
    assert!(!parse_show_line_anchors(true, None));
}

#[test]
fn read_path_checks() {
    assert_eq!(check_read_path(Some("  src/a.rs ")).ok(), Some("src/a.rs".to_string()));
    assert!(matches!(check_read_path(None), Err(None)));
    let blank = check_read_path(Some(" ")).err().unwrap().unwrap();
    assert_eq!(blank.message, "Path parameter cannot be empty");
    let up = check_read_path(Some("../x")).err().unwrap().unwrap();
    assert_eq!(up.message, "Path traversal patterns (..) are not allowed");
}

#[test]
fn read_reply_layouts() {
    let plain = format_read_reply("a.rs", 10, "Lines 1-2 of 2", "", "x\ny", "rust", None);
    assert_eq!(plain, "📄 **`a.rs`** — 10 B — Lines 1-2 of 2\n\n```rust\nx\ny\n```");
    let anchored = format_read_reply("a.rs", 10, "S", "\n\nN", "1:abcdef|x", "rust", Some(("P", "Q")));
    assert_eq!(
        anchored,
        "📄 **`a.rs`** — 10 B — S\n\nN\n\n```\n1:abcdef|x\n```\n\nLine format: `{lineNumber}:{anchor}|{content}`\n- `{lineNumber}`: 1-based line number\n- `{anchor}`: 6-character hex code (example: `792c6f`)\n- `{content}`: line content\n\nPQ"
    );
}

#[test]
fn delete_checks_and_replies() {
    assert_eq!(check_delete_path(Some(" tmp/x.txt")).ok(), Some("tmp/x.txt".to_string()));
    let up = check_delete_path(Some("a/../b")).err().unwrap().unwrap();
    assert_eq!(up.guidance, vec!["Use relative paths from workspace root", "Example: 'src/file.txt' instead of '../file.txt'"]);
    let dir = directory_refusal_message("src");
    assert_eq!(dir.message, "'src' is a directory, not a file");
    assert_eq!(dir.guidance[2], "To delete directory contents, delete individual files inside 'src'");
    let (text, steps) = deleted_message("src/a.txt", 2048, "src");
    assert_eq!(
        text,
        "**✅ File Deleted Successfully**\n\n**File:** `src/a.txt`\n**Size:** 2.00 KB\n\n⚠️ This operation is permanent - the file cannot be recovered through this tool."
    );
    assert_eq!(steps, vec!["Use listDirectory(\"src\") to verify deletion", "Use writeFile(\"src/a.txt\", content) to create a new file at this path"]);
    assert_eq!(delete_failed_message("a", false, "Operation not permitted: permission").message, "Permission denied: Cannot delete file");
    let other = delete_failed_message("a", false, "busy");
    assert_eq!(other.message, "busy");
    assert_eq!(other.guidance[2], "Use listDirectory to verify file path: a");
}

#[test]
fn import_reports() {
    let ok = vec!["Imported: /x -> x".to_string()];
    let bad = vec!["Missing srcAbsPath for a file item".to_string()];
    assert_eq!(
        format_import_report(&ok, &bad),
        ("Successfully imported 1 file(s):\n- Imported: /x -> x\n\nFailed to import 1 file(s):\n- Missing srcAbsPath for a file item".to_string(), false)
    );
    assert_eq!(format_import_report(&[], &bad), ("Failed to import 1 file(s):\n- Missing srcAbsPath for a file item".to_string(), true));
    assert_eq!(format_import_report(&ok, &[]), ("Successfully imported 1 file(s):\n- Imported: /x -> x".to_string(), false));
}

#[test]
fn single_import_checks_and_replies() {
    let g = check_import_file_args(None, Some("a")).err().expect("refused");
    assert_eq!(g.message, "Missing required parameter: srcAbsPath");
    let g = check_import_file_args(Some("/x"), None).err().expect("refused");
    assert_eq!(g.message, "Missing required parameter: destRelPath");
    assert_eq!(g.guidance[1], "Example: \"imports/filename.ext\" or \"src/data/file.txt\"");
    assert_eq!(check_import_file_args(Some("/x"), Some("y")).ok(), Some(("/x".to_string(), "y".to_string())));
    assert_eq!(import_source_not_found_message("/nope").message, "Source file not found or cannot be accessed: /nope");
    assert_eq!(import_source_is_directory_message("/tmp").guidance.len(), 3);
    let g = imported_file_message("/home/u/a.txt", 42, "imports/a.txt");
    assert_eq!(g.message, "✅ Successfully imported /home/u/a.txt (42 bytes) to imports/a.txt");
    assert_eq!(g.guidance[0], "Use readFile(\"imports/a.txt\") to view imported content");
    let g = import_failed_message("imports/a.txt", "File already exists: imports/a.txt");
    assert_eq!(g.message, "Failed to import file: File already exists: imports/a.txt");
    assert_eq!(g.guidance[0], "File already exists at: imports/a.txt");
    assert_eq!(import_failed_message("d", "Permission denied").guidance[0], "Insufficient permissions to write to destination");
    assert_eq!(import_failed_message("d", "No space left on device").guidance[0], "Insufficient disk space to import file");
    assert_eq!(import_failed_message("d", "boom").guidance.len(), 2);
}
