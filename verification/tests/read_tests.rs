use workspace_ops::read::{
    format_lines_with_numbers, format_numbered_lines, format_read_chunk_summary,
    is_binary_file_error, is_empty_file_out_of_range_error, parse_offset_exceeds_error,
    read_chunk_from_lines, read_file_visible_content_limit_bytes, resolve_range, ReadMode,
};

fn check_anchor_format(result: &str) {
    let result_lines: Vec<&str> = result.lines().collect();
    assert_eq!(result_lines.len(), 3);
    for line in &result_lines {
        let parts: Vec<&str> = line.splitn(2, '|').collect();
        assert_eq!(parts.len(), 2, "Anchored line must contain '|' separator");
        let prefix = parts[0];
        let colon_pos = prefix
            .find(':')
            .expect("Anchored line prefix must contain ':'");
        let anchor = &prefix[colon_pos + 1..];
        assert_eq!(anchor.len(), 6, "Anchor must be 6 hex chars");
        assert!(
            anchor.chars().all(|c| c.is_ascii_hexdigit()),
            "Anchor must be hex digits"
        );
    }
    assert!(result_lines[0].ends_with("function hello() {"));
    assert!(result_lines[1].ends_with("  return \"world\";"));
    assert!(result_lines[2].ends_with('}'));
}

fn hello_lines() -> Vec<(usize, String)> {
    vec![
        (11, "function hello() {".to_string()),
        (22, "  return \"world\";".to_string()),
        (33, "}".to_string()),
    ]
}

fn c_program_lines() -> Vec<(usize, String)> {
    vec![
        (1, "#include <stdio.h>".to_string()),
        (2, "".to_string()),
        (3, "".to_string()),
        (4, "".to_string()),
        (5, "int main() {".to_string()),
        (6, "".to_string()),
        (7, "".to_string()),
        (8, "    printf(\"Hello\");".to_string()),
        (9, "".to_string()),
        (10, "    return 0;".to_string()),
        (11, "}".to_string()),
    ]
}

#[test]
fn read_test_format_lines_with_numbers_basic() {
    let lines = vec![
        (1, "#include <stdio.h>".to_string()),
        (2, "".to_string()),
        (3, "int main() {".to_string()),
    ];
    let result = format_lines_with_numbers(&lines, false);
    assert!(result.contains("#include <stdio.h>"));
    assert!(result.contains("int main() {"));
}

#[test]
fn read_test_format_lines_preserves_all_empty_lines() {
    let result = format_lines_with_numbers(&c_program_lines(), false);
    assert_eq!(
        result,
        "#include <stdio.h>\n\n\n\nint main() {\n\n\n    printf(\"Hello\");\n\n    return 0;\n}"
    );
}

#[test]
fn read_test_format_lines_returns_raw_content_without_wrappers() {
    let lines = vec![(1, "int main() {}".to_string()), (2, "".to_string())];
    let result = format_lines_with_numbers(&lines, false);
    assert_eq!(result, "int main() {}\n");
}

#[test]
fn read_test_format_lines_anchor_format() {
    let lines = hello_lines();
    let result = format_lines_with_numbers(&lines, true);
    check_anchor_format(&result);
    let result2 = format_lines_with_numbers(&lines, true);
    assert_eq!(result, result2);
}

#[test]
fn mod_test_format_lines_with_numbers_basic() {
    let lines = vec![
        (1, "#include <stdio.h>".to_string()),
        (2, "".to_string()),
        (3, "int main() {".to_string()),
    ];
    let result = format_lines_with_numbers(&lines, false);
    assert!(result.contains("#include <stdio.h>"));
    assert!(result.contains("int main() {"));
}

#[test]
fn mod_test_format_lines_preserves_all_empty_lines() {
    let result = format_lines_with_numbers(&c_program_lines(), false);
    assert_eq!(
        result,
        "#include <stdio.h>\n\n\n\nint main() {\n\n\n    printf(\"Hello\");\n\n    return 0;\n}"
    );
}

#[test]
fn mod_test_format_lines_returns_raw_content_without_wrappers() {
    let lines = vec![(1, "int main() {}".to_string()), (2, "".to_string())];
    let result = format_lines_with_numbers(&lines, false);
    assert_eq!(result, "int main() {}\n");
}

#[test]
fn mod_test_format_lines_anchor_format() {
    let lines = hello_lines();
    let result = format_lines_with_numbers(&lines, true);
    check_anchor_format(&result);
    let result2 = format_lines_with_numbers(&lines, true);
    assert_eq!(result, result2);
}

#[test]
fn read_write_test_format_lines_with_numbers_basic() {
    let lines = vec![
        (1, "#include <stdio.h>".to_string()),
        (2, "".to_string()),
        (3, "int main() {".to_string()),
    ];
    let result = format_numbered_lines(&lines, true);
    assert!(result.contains("   1 | #include <stdio.h>"));
    assert!(result.contains("   2 | "));
    assert!(result.contains("   3 | int main() {"));
}

#[test]
fn read_write_test_format_lines_preserves_all_empty_lines() {
    let result = format_numbered_lines(&c_program_lines(), true);
    assert!(result.contains("   1 | #include <stdio.h>"));
    assert!(result.contains("   5 | int main() {"));
    assert!(result.contains("   8 |     printf(\"Hello\");"));
    assert!(result.contains("   2 | "));
    assert!(result.contains("   3 | "));
    assert!(result.contains("   4 | "));
    assert!(result.contains("   6 | "));
    assert!(result.contains("   7 | "));
    assert!(result.contains("   9 | "));
}

#[test]
fn test_format_lines_includes_header_and_footer() {
    let lines = vec![(1, "int main() {}".to_string()), (2, "".to_string())];
    let result = format_numbered_lines(&lines, true);
    assert!(result.contains("[File Content"));
    assert!(result.contains("NOT part of the code"));
    assert!(result.contains("   1 | int main() {}"));
    assert!(result.contains("   2 | "));
}

#[test]
fn test_resolve_range_simple() {
    assert_eq!(resolve_range(100, Some(10), Some(5)), (10, 14));
    assert_eq!(resolve_range(100, Some(0), Some(5)), (1, 5));
    assert_eq!(resolve_range(100, None, Some(-10)), (91, 100));
    assert_eq!(resolve_range(100, Some(-5), Some(-10)), (86, 95));
    assert_eq!(resolve_range(100, Some(50), Some(-10)), (41, 50));
    assert_eq!(resolve_range(100, Some(-5), Some(10)), (96, 105));
}

#[test]
fn test_is_binary_file_error() {
    assert!(is_binary_file_error(
        "Failed to read file: content appears to be binary (embedded null bytes)"
    ));
    assert!(is_binary_file_error(
        "Failed to read file: content appears to be binary (embedded null bytes). Use a specialized tool or shell commands for binary files."
    ));
    assert!(is_binary_file_error(
        "Failed to read file: Content appears to be binary or contains invalid UTF-8 characters. Please use a specialized tool for binary files."
    ));
    assert!(!is_binary_file_error(
        "Failed to read file: /usr/local/binary/test.txt: No such file or directory"
    ));
    assert!(!is_binary_file_error("No such file or directory"));
    assert!(!is_binary_file_error("Permission denied"));
}

#[test]
fn resolve_range_covers_open_ended_reads() {
    assert_eq!(resolve_range(100, None, None), (1, usize::MAX));
    assert_eq!(resolve_range(100, Some(-20), None), (81, 100));
    assert_eq!(resolve_range(100, Some(7), None), (7, usize::MAX));
    assert_eq!(resolve_range(10, None, Some(-50)), (1, 10));
    assert_eq!(resolve_range(10, Some(-50), Some(3)), (1, 3));
}

#[test]
fn binary_phrase_is_matched_in_any_case() {
    assert!(is_binary_file_error("APPEARS TO BE BINARY"));
    assert!(!is_binary_file_error("appears to be bin"));
}

#[test]
fn empty_file_errors_are_recognised_by_prefix() {
    assert!(is_empty_file_out_of_range_error(
        "File is empty (0 lines); omit offset/size or use offset: 1 (received offset: 5)"
    ));
    assert!(!is_empty_file_out_of_range_error("file is empty"));
}

#[test]
fn offset_exceeds_errors_are_parsed() {
    assert_eq!(
        parse_offset_exceeds_error("Requested offset 120 exceeds file length of 100 lines"),
        Some((120, 100))
    );
    assert_eq!(
        parse_offset_exceeds_error("Requested offset +7 exceeds file length of 3 lines"),
        Some((7, 3))
    );
    assert_eq!(parse_offset_exceeds_error("Requested offset x exceeds file length of 3 lines"), None);
    assert_eq!(parse_offset_exceeds_error("Requested offset 5 exceeds file length of 3"), None);
    assert_eq!(parse_offset_exceeds_error("offset 5 exceeds file length of 3 lines"), None);
}

fn strings(v: &[&str]) -> Vec<String> {
    v.iter().map(|s| s.to_string()).collect()
}

#[test]
fn chunk_reads_a_window_of_lines() {
    let lines = strings(&["a", "bb", "ccc", "dddd"]);
    let chunk = read_chunk_from_lines(&lines, 2, 3, false, 1000).unwrap();
    assert_eq!(chunk.content, "bb\nccc");
    assert_eq!(chunk.total_lines, 4);
    assert_eq!(chunk.displayed_start_line, 2);
    assert_eq!(chunk.displayed_end_line, 3);
    assert_eq!(chunk.displayed_line_count, 2);
    assert!(!chunk.truncated);
    assert_eq!(chunk.next_start_line, None);
    assert_eq!(chunk.suggested_end_line, None);
}

#[test]
fn chunk_stops_at_the_byte_limit() {
    let lines = strings(&["aaaa", "bbbb", "cccc", "dddd"]);
    // "aaaa\nbbbb" is 9 bytes; adding "\ncccc" would make 14
    let chunk = read_chunk_from_lines(&lines, 1, usize::MAX, false, 12).unwrap();
    assert_eq!(chunk.content, "aaaa\nbbbb");
    assert!(chunk.truncated);
    assert_eq!(chunk.next_start_line, Some(3));
    assert_eq!(chunk.suggested_end_line, Some(4));
    assert_eq!(chunk.displayed_end_line, 2);
}

#[test]
fn chunk_hard_cuts_a_line_wider_than_the_limit() {
    let lines = strings(&["héllo world", "x"]);
    // 'é' takes two bytes: the first 4 bytes are "hél"
    let chunk = read_chunk_from_lines(&lines, 1, 2, false, 4).unwrap();
    assert_eq!(chunk.content, "hél …[hard-cut at 3 chars, line continues]");
    assert!(chunk.truncated);
    assert!(chunk.next_line_too_large);
    assert_eq!(chunk.hard_cut_chars_shown, 3);
    assert_eq!(chunk.next_start_line, Some(1));
}

#[test]
fn chunk_errors_for_out_of_range_reads() {
    let empty: Vec<String> = Vec::new();
    assert_eq!(
        read_chunk_from_lines(&empty, 5, 10, false, 100).err().unwrap(),
        "File is empty (0 lines); omit offset/size or use offset: 1 (received offset: 5)"
    );
    let ok = read_chunk_from_lines(&empty, 1, 10, false, 100).unwrap();
    assert_eq!(ok.total_lines, 0);
    assert_eq!(ok.content, "");
    let lines = strings(&["a", "b"]);
    assert_eq!(
        read_chunk_from_lines(&lines, 5, 10, false, 100).err().unwrap(),
        "Requested offset 5 exceeds file length of 2 lines"
    );
}

#[test]
fn chunk_anchors_follow_the_whole_file() {
    let lines = strings(&["alpha", "beta", "gamma"]);
    let full = workspace_ops::hashline::format_as_hashlines("alpha\nbeta\ngamma");
    let chunk = read_chunk_from_lines(&lines, 2, 3, true, 1000).unwrap();
    let expected: Vec<&str> = full.lines().skip(1).collect();
    assert_eq!(chunk.content, expected.join("\n"));
}

#[test]
fn chunk_summary_describes_the_window() {
    let lines = strings(&["a", "b", "c", "d"]);
    let chunk = read_chunk_from_lines(&lines, 2, 3, false, 1000).unwrap();
    assert_eq!(format_read_chunk_summary(&chunk, false, true), "lines 2-3 of 4 (requested range; more remains)");
    assert_eq!(format_read_chunk_summary(&chunk, false, false), "lines 2-3 of 4 (reached end; not complete file)");
    let whole = read_chunk_from_lines(&lines, 1, 4, false, 1000).unwrap();
    assert_eq!(format_read_chunk_summary(&whole, true, false), "complete (4 lines)");
    let one = read_chunk_from_lines(&lines, 3, 3, false, 1000).unwrap();
    assert_eq!(format_read_chunk_summary(&one, false, false), "line 3 of 4 (reached end; not complete file)");
}

#[test]
fn visible_limit_keeps_headroom_and_a_floor() {
    assert_eq!(read_file_visible_content_limit_bytes(10_000, false), 10_000 - 1024);
    assert_eq!(read_file_visible_content_limit_bytes(10_000, true), 10_000 - 3072);
    assert_eq!(read_file_visible_content_limit_bytes(1500, true), 1024);
}

#[test]
fn numbered_lines_without_numbers_are_raw() {
    let lines = vec![(1, "x".to_string()), (2, "y".to_string())];
    assert_eq!(format_numbered_lines(&lines, false), "x\ny");
    assert_eq!(format_numbered_lines(&[], true), "");
    let _ = ReadMode::Tail(3);
}
