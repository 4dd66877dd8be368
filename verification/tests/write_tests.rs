use workspace_ops::write::{
    add_numeric_suffix_to_filename, create_exhausted_guidance, create_probe, parse_write_request,
    sibling_display_path, write_action_name, write_next_steps, write_summary_text, CreateProbe,
    WriteRefusal,
};

#[test]
fn numeric_suffix_goes_before_the_extension() {
    assert_eq!(add_numeric_suffix_to_filename("report.md", 1), "report-1.md");
    assert_eq!(add_numeric_suffix_to_filename(".gitignore", 1), ".gitignore-1");
    assert_eq!(add_numeric_suffix_to_filename("README", 2), "README-2");
    assert_eq!(add_numeric_suffix_to_filename("", 3), "file-3");
    assert_eq!(add_numeric_suffix_to_filename("archive.tar.gz", 4), "archive.tar-4.gz");
    assert_eq!(add_numeric_suffix_to_filename(".env.local", 1), ".env-1.local");
    assert_eq!(add_numeric_suffix_to_filename("notes.", 12), "notes-12.");
}

#[test]
fn sibling_path_keeps_the_directory_and_separator() {
    assert_eq!(sibling_display_path("src/report.md", "report-1.md"), "src/report-1.md");
    assert_eq!(sibling_display_path("dir\\a.txt", "a-1.txt"), "dir\\a-1.txt");
    assert_eq!(sibling_display_path("a.txt", "a-1.txt"), "a-1.txt");
    assert_eq!(sibling_display_path("x/y\\z.rs", "z-2.rs"), "x/y\\z-2.rs");
}

#[test]
fn create_probe_tries_numbered_siblings_then_gives_up() {
    match create_probe("docs/a.md", "a.md", 1) {
        CreateProbe::Candidate { suffix, file_name, display_path } => {
            assert_eq!(suffix, 1);
            assert_eq!(file_name, "a-1.md");
            assert_eq!(display_path, "docs/a-1.md");
        }
        CreateProbe::Exhausted { .. } => panic!("expected a candidate"),
    }
    match create_probe("docs/a.md", "a.md", 99) {
        CreateProbe::Candidate { file_name, .. } => assert_eq!(file_name, "a-99.md"),
        CreateProbe::Exhausted { .. } => panic!("expected a candidate"),
    }
    match create_probe("docs/a.md", "a.md", 100) {
        CreateProbe::Exhausted { message } => assert_eq!(
            message,
            "Could not allocate a unique path for 'docs/a.md': tried suffixes -1 through -99 and all candidates already exist"
        ),
        CreateProbe::Candidate { .. } => panic!("expected exhaustion"),
    }
    let g = create_exhausted_guidance("docs/a.md", "workspace__editFiles");
    assert_eq!(g.len(), 3);
    assert_eq!(g[0], "Choose a different path, or set \"mode\": \"overwrite\" to replace \"docs/a.md\".");
    assert_eq!(g[2], "Use workspace__editFiles for targeted edits to \"docs/a.md\" instead of rewriting the whole file.");
}

#[test]
fn write_request_checks_path_then_content() {
    match parse_write_request(None, Some("x"), None) {
        Err(WriteRefusal::MissingParameter { field }) => assert_eq!(field, "path"),
        _ => panic!("expected a missing path"),
    }
    let empty = parse_write_request(Some("   "), Some("x"), None);
    assert!(matches!(empty, Err(WriteRefusal::EmptyPath)));
    let (m, g) = WriteRefusal::EmptyPath.guided_message().unwrap();
    assert_eq!(m, "Path parameter cannot be empty");
    assert_eq!(g.len(), 3);
    assert!(matches!(parse_write_request(Some("../etc/passwd"), Some("x"), None), Err(WriteRefusal::PathTraversal)));
    let (m, _) = WriteRefusal::PathTraversal.guided_message().unwrap();
    assert_eq!(m, "Path traversal patterns (..) are not allowed");
    match parse_write_request(Some(" a.txt "), None, None) {
        Err(WriteRefusal::MissingParameter { field }) => assert_eq!(field, "content"),
        _ => panic!("expected a missing content"),
    }
    match parse_write_request(Some(" a.txt "), Some(""), None) {
        Ok(req) => {
            assert_eq!(req.path, "a.txt");
            assert_eq!(req.mode, "create");
        }
        Err(_) => panic!("expected a request"),
    }
    match parse_write_request(Some("b.txt"), Some("c"), Some("append")) {
        Ok(req) => assert_eq!(req.mode, "append"),
        Err(_) => panic!("expected a request"),
    }
    assert!(WriteRefusal::MissingParameter { field: "path".to_string() }.guided_message().is_none());
}

#[test]
fn write_action_follows_mode_and_existence() {
    assert_eq!(write_action_name(true, false, "create"), "created_alternate_path");
    assert_eq!(write_action_name(false, true, "append"), "appended");
    assert_eq!(write_action_name(false, false, "append"), "appended");
    assert_eq!(write_action_name(false, true, "overwrite"), "overwritten");
    assert_eq!(write_action_name(false, false, "overwrite"), "created");
    assert_eq!(write_action_name(false, false, "create"), "created");
}

#[test]
fn write_summary_for_created_and_appended_files() {
    let created = write_summary_text(false, false, "create", "a.txt", "a.txt", 10, 1, 10, 1, "workspace__editFiles");
    assert_eq!(
        created,
        "**✅ New File Created Successfully**\n\n**File:** `a.txt`\n**Total Size:** 10 B\n**Total Lines:** 1\n\n"
    );
    let appended = write_summary_text(false, true, "append", "a.txt", "a.txt", 2048, 40, 5, 1, "workspace__editFiles");
    assert_eq!(
        appended,
        "**✅ Content Appended Successfully**\n\n**File:** `a.txt`\n**Total Size:** 2.00 KB\n**Total Lines:** 40\n\n**Appended:** 5 B, 1 line(s)\n**Note:** Append is verbatim; prefix content with `\\n` when adding after an existing line.\n\n"
    );
    let overwritten = write_summary_text(false, true, "overwrite", "a.txt", "a.txt", 3, 1, 3, 1, "workspace__editFiles");
    assert!(overwritten.starts_with("**✅ File Overwritten Successfully**\n\n"));
}

#[test]
fn write_summary_for_alternate_path() {
    let text = write_summary_text(true, false, "create", "a.md", "a-1.md", 4, 1, 4, 1, "workspace__editFiles");
    assert!(text.starts_with("**⚠️ New File Created at Alternate Path (requested path already existed)**\n\n**What happened:** `mode` was `\"create\"` (default), but `a.md` already existed.\nTo avoid discarding"));
    assert!(text.contains("**Requested path (unchanged):** `a.md`\n**Actually written to:** `a-1.md`\n**Total Size:** 4 B\n**Total Lines:** 1\n\n"));
    assert!(text.contains("use `workspace__editFiles` (not another `writeFile` create)"));
    assert!(text.ends_with("accept this auto-suffix behavior\n\n"));
}

#[test]
fn write_next_steps_cover_each_case() {
    let none = write_next_steps(false, "a", "a", false, 1, false, "create", 0, "T");
    assert!(none.is_empty());
    let adjusted = write_next_steps(true, "a.md", "a-1.md", true, 7, false, "create", 0, "T");
    assert_eq!(adjusted.len(), 3);
    assert_eq!(
        adjusted[0],
        "Written path: \"a-1.md\" — requested \"a.md\" was not modified. Continue with \"a-1.md\" for subsequent operations."
    );
    assert_eq!(
        adjusted[1],
        "To replace \"a.md\", call workspace__writeFile with \"mode\": \"overwrite\". To edit in place, use T or mode=\"append\"."
    );
    assert_eq!(adjusted[2], "Preview truncated; full file has 7 line(s) at \"a-1.md\".");
    let big = write_next_steps(false, "b", "b", false, 1, true, "overwrite", 40, "T");
    assert_eq!(
        big,
        vec!["mode=\"overwrite\" replaced the entire file (40+ lines); partial line edits are handled by T, not overwrite."]
    );
    let small = write_next_steps(false, "b", "b", false, 1, true, "overwrite", 39, "T");
    assert!(small.is_empty());
}
