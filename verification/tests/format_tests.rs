use workspace_ops::listing::{
    build_listing_message, format_listing_table, listing_item, listing_truncation_note,
    ListingItem,
};
use workspace_ops::replace::{count_occurrences, generate_replacement_context};
use workspace_ops::sizes::{format_file_size, format_human_size};
use workspace_ops::utils::{
    detect_language, format_file_diff, format_string_diff, format_string_diff_for_language,
    is_not_found_io_error, language_for_extension, normalize_workspace_path_input,
    process_not_found_guidance, validate_path_with_error, validate_path_with_error_for_write,
    IoErrorSummary,
};

#[test]
fn format_human_size_matches_host_style() {
    assert_eq!(format_human_size(8), "8B");
    assert_eq!(format_human_size(8192), "8.0KB");
    assert_eq!(format_human_size(16_875_520), "16.1MB");
}

#[test]
fn listing_truncation_note_signals_more_pages() {
    let note = listing_truncation_note(0, 2, 10, 2);
    assert!(note.contains("Showing 1 to 2 of 10"));
    assert!(note.contains("offset: 2"));
}

#[test]
fn count_occurrences_handles_empty_needle() {
    assert_eq!(count_occurrences("abc", ""), 0);
}

#[test]
fn count_occurrences_counts_non_overlapping_matches() {
    assert_eq!(count_occurrences("foo foo foo", "foo"), 3);
    assert_eq!(count_occurrences("aaa", "aa"), 1);
}

#[test]
fn human_size_agrees_with_float_formatting() {
    let mut samples: Vec<u64> = vec![
        0, 1, 1023, 1024, 1025, 1280, 1331, 1536, 3379, 10_240, 1_047_552, 1_048_575,
        1_048_576, 1_101_004, 16_875_520, 123_456_789, 5_000_000_000, 9_007_199_254_740_993,
        18_014_398_509_481_989, u64::MAX - 1, u64::MAX,
    ];
    let mut x: u64 = 12345;
    for _ in 0..2000 {
        x = x.wrapping_mul(6364136223846793005).wrapping_add(1442695040888963407);
        samples.push(x >> (x % 60));
    }
    for b in samples {
        let expected = if b < 1024 {
            format!("{}B", b)
        } else if b < 1024 * 1024 {
            format!("{:.1}KB", b as f64 / 1024.0)
        } else {
            format!("{:.1}MB", b as f64 / 1024.0 / 1024.0)
        };
        assert_eq!(format_human_size(b), expected, "bytes = {b}");
    }
}

#[test]
fn file_size_agrees_with_float_formatting() {
    let units = ["B", "KB", "MB", "GB", "TB"];
    let mut samples: Vec<u64> = vec![
        0, 1, 1023, 1024, 1536, 1_048_576, 1_610_612_736, 1_099_511_627_776, u64::MAX,
        1_125_899_906_842_624, 2560, 2570, 1_048_064,
    ];
    let mut x: u64 = 987;
    for _ in 0..2000 {
        x = x.wrapping_mul(6364136223846793005).wrapping_add(1442695040888963407);
        samples.push(x >> (x % 60));
    }
    for b in samples {
        let mut size = b as f64;
        let mut idx = 0;
        while size >= 1024.0 && idx < units.len() - 1 {
            size /= 1024.0;
            idx += 1;
        }
        let expected = if idx == 0 {
            format!("{} {}", b, units[0])
        } else {
            format!("{:.2} {}", size, units[idx])
        };
        assert_eq!(format_file_size(b), expected, "bytes = {b}");
    }
}

#[test]
fn listing_table_shows_icons_and_sizes() {
    let items = vec![
        listing_item("src".to_string(), "directory", None),
        listing_item("main.db".to_string(), "file", Some(512)),
        ListingItem { name: None, entry_type: None, size: Some(2048) },
    ];
    let table = format_listing_table(&items);
    assert_eq!(
        table,
        "| Type | Name | Size |\n|---|---|---|\n| 📁 dir | `src` | - |\n| 📄 file | `main.db` | 512B |\n| ❓ other | `?` | 2.0KB |"
    );
}

#[test]
fn listing_notes_for_each_page() {
    assert_eq!(
        listing_truncation_note(2, 2, 10, 2),
        "\n\n*(Showing 3 to 4 of 10 items. Call workspace__listDirectory with offset: 4 to see more)*"
    );
    assert_eq!(listing_truncation_note(8, 2, 10, 2), "\n\n*(Showing 9 to 10 of 10 items)*");
    assert_eq!(listing_truncation_note(0, 10, 10, 50), "");
}

#[test]
fn listing_message_for_empty_and_full_directories() {
    assert_eq!(
        build_listing_message("empty", &[], 0, 0, 100, None),
        "Directory listing for 'empty':\n\n(This directory is empty)\n\nThis is a valid empty directory."
    );
    let items = vec![listing_item("a.txt".to_string(), "file", Some(10))];
    let msg = build_listing_message(".", &items, 1, 0, 100, Some("(attached container, showing 1 of 1)"));
    assert_eq!(
        msg,
        "Directory listing for '.' (attached container, showing 1 of 1):\n\n| Type | Name | Size |\n|---|---|---|\n| 📄 file | `a.txt` | 10B |"
    );
}

#[test]
fn path_input_is_trimmed_and_defaulted() {
    assert_eq!(normalize_workspace_path_input(Some("  src  "), "."), Ok("src".to_string()));
    assert_eq!(normalize_workspace_path_input(None, "."), Ok(".".to_string()));
    assert_eq!(
        normalize_workspace_path_input(Some("   "), "."),
        Err("Path parameter cannot be empty".to_string())
    );
}

#[test]
fn security_errors_are_prefixed() {
    assert_eq!(validate_path_with_error(Ok("/w/a".to_string())), Ok("/w/a".to_string()));
    assert_eq!(
        validate_path_with_error(Err("outside workspace".to_string())),
        Err("Security error: outside workspace".to_string())
    );
    assert_eq!(
        validate_path_with_error_for_write(Err("reserved name".to_string())),
        Err("Security error: reserved name".to_string())
    );
}

#[test]
fn not_found_errors_are_recognised() {
    let by_kind = IoErrorSummary { kind_is_not_found: true, message: "gone".to_string() };
    assert!(is_not_found_io_error(&by_kind));
    let by_text = IoErrorSummary { kind_is_not_found: false, message: "No such file or directory (os error 2)".to_string() };
    assert!(is_not_found_io_error(&by_text));
    let other = IoErrorSummary { kind_is_not_found: false, message: "Permission denied".to_string() };
    assert!(!is_not_found_io_error(&other));
}

#[test]
fn languages_by_extension() {
    assert_eq!(language_for_extension("rs"), "rust");
    assert_eq!(language_for_extension("tsx"), "typescript");
    assert_eq!(language_for_extension("kts"), "kotlin");
    assert_eq!(language_for_extension("weird"), "");
    assert_eq!(detect_language("src/main.rs"), "rust");
    assert_eq!(detect_language("notes/todo.txt"), "text");
    assert_eq!(detect_language("Makefile"), "");
    assert_eq!(detect_language(".bashrc"), "");
}

#[test]
fn file_diff_lists_removed_then_added_lines() {
    let d = format_file_diff("a\nb", "a\nc\nd", "x.txt");
    assert_eq!(
        d,
        "**Changes:** 1 line(s) added, 0 line(s) removed\n\n**Diff:**\n```diff\n@@ -1,2 +1,3 @@\n- a\n- b\n+ a\n+ c\n+ d\n```"
    );
    let many: Vec<String> = (0..52).map(|i| i.to_string()).collect();
    let d = format_file_diff(&many.join("\n"), "", "x");
    assert!(d.contains("... 2 more removed lines omitted"));
    assert!(d.contains("- 49\n... 2 more"));
}

#[test]
fn string_diff_numbers_each_replacement() {
    let reps = vec![
        ("old".to_string(), "new\nnewer".to_string()),
        ("x".to_string(), "y".to_string()),
    ];
    assert_eq!(
        format_string_diff_for_language(&reps, "rust"),
        "**Changes Made:**\n\n```diff\n@@ Replacement #1: 1 line(s) → 2 line(s) @@\n- old\n+ new\n+ newer\n\n@@ Replacement #2: 1 line(s) → 1 line(s) @@\n- x\n+ y\n```\n\n*Language: rust*"
    );
    assert!(format_string_diff(&reps, "lib.rs").ends_with("*Language: rust*"));
    assert!(format_string_diff(&reps, "README").ends_with("```"));
}

#[test]
fn replacement_context_marks_matched_lines() {
    let content = "l1\nl2\nl3\nl4\nl5\nl6";
    let ctx = generate_replacement_context(content, "l3\nl4", "n3");
    assert_eq!(
        ctx,
        "@@ Lines 3-4 (showing context) @@\n     1 | l1\n     2 | l2\n-    3 | l3\n-    4 | l4\n     5 | l5\n     6 | l6\n+    3 | n3"
    );
    assert_eq!(
        generate_replacement_context(content, "zz", "n"),
        "ERROR: Match location not found (should not happen)"
    );
}

#[test]
fn missing_process_guidance_lists_next_steps() {
    let g = process_not_found_guidance("Running: none".to_string());
    assert_eq!(g.len(), 3);
    assert_eq!(g[0], "Running: none");
    assert_eq!(g[1], "Use workspace__listProcesses() to find a valid processId.");
}
