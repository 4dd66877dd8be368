use workspace_ops::str_replace::{
    count_matching_chars, decide_replace, not_found_message, not_unique_message, parse_replace_request, replace_first,
    replaced_message, write_failed_message, ReplaceDecision, ReplaceRefusal,
};

#[test]
fn first_occurrence_is_replaced() {
    assert_eq!(replace_first("a-b-a", "a", "x"), "x-b-a");
    assert_eq!(replace_first("héllo wörld", "wö", "WO"), "héllo WOrld");
    assert_eq!(replace_first("abc", "z", "y"), "abc");
    assert_eq!(replace_first("abc", "", "y"), "yabc");
    assert_eq!(replace_first("line1\nline2\n", "line2\n", ""), "line1\n");
}

#[test]
fn request_checks_in_order() {
    match parse_replace_request(None, Some("a"), Some("b")) {
        Err(ReplaceRefusal::MissingParameter { field }) => assert_eq!(field, "path"),
        _ => panic!("expected a missing path"),
    }
    assert!(matches!(parse_replace_request(Some(" "), Some("a"), Some("b")), Err(ReplaceRefusal::EmptyPath)));
    match parse_replace_request(Some("p"), None, Some("b")) {
        Err(ReplaceRefusal::MissingParameter { field }) => assert_eq!(field, "oldString"),
        _ => panic!("expected a missing oldString"),
    }
    assert!(matches!(parse_replace_request(Some("p"), Some(""), Some("b")), Err(ReplaceRefusal::EmptyOldString)));
    match parse_replace_request(Some("p"), Some("a"), None) {
        Err(ReplaceRefusal::MissingParameter { field }) => assert_eq!(field, "newString"),
        _ => panic!("expected a missing newString"),
    }
    assert!(matches!(parse_replace_request(Some("p"), Some("a"), Some("a")), Err(ReplaceRefusal::IdenticalStrings)));
    match parse_replace_request(Some(" src/a.rs "), Some("a"), Some("")) {
        Ok(r) => {
            assert_eq!(r.path, "src/a.rs");
            assert_eq!(r.old_string, "a");
            assert_eq!(r.new_string, "");
        }
        Err(_) => panic!("expected a request"),
    }
    let (m, g) = ReplaceRefusal::IdenticalStrings.guided_message().unwrap();
    assert_eq!(m, "oldString and newString are identical - no changes needed");
    assert_eq!(g.len(), 3);
    let (m, _) = ReplaceRefusal::EmptyOldString.guided_message().unwrap();
    assert_eq!(m, "Parameter 'oldString' cannot be empty");
}

#[test]
fn replies_for_missing_and_repeated_text() {
    let (m, g) = not_unique_message("a.rs", 3);
    assert_eq!(m, "Pattern found 3 times (not unique)");
    assert_eq!(g[1], "Use readFile('a.rs') to see full content and find unique context");
    let (m, g) = not_found_message("a.rs", Some((12, 85)), 3);
    assert_eq!(m, "Pattern NOT FOUND (but 85% similar at line 12)");
    assert_eq!(g[0], "Use readFile('a.rs', 12, 14) to see actual content");
    assert_eq!(g.len(), 3);
    let (m, g) = not_found_message("a.rs", None, 1);
    assert_eq!(m, "Pattern NOT FOUND in file");
    assert_eq!(g, vec!["Use readFile('a.rs') to see current file content", "Verify you are copying the text exactly as it appears in the latest readFile output"]);
}

#[test]
fn replies_after_writing() {
    let (m, g) = replaced_message("a.rs", "DIFF");
    assert_eq!(m, "**✅ File Edited Successfully**\n\n**File:** `a.rs`\n\n**Changes:**\nDIFF");
    assert_eq!(g.len(), 3);
    let (m, _) = write_failed_message("a.rs", true, "ignored");
    assert_eq!(m, "Permission denied writing to 'a.rs'");
    let (m, g) = write_failed_message("a.rs", false, "disk full");
    assert_eq!(m, "disk full");
    assert_eq!(g[1], "Use readFile('a.rs') to verify file still exists");
}

#[test]
fn matching_characters_are_counted_position_by_position() {
    assert_eq!(count_matching_chars("abcd", "abxd"), 3);
    assert_eq!(count_matching_chars("abc", "abcdef"), 3);
    assert_eq!(count_matching_chars("", "abc"), 0);
    assert_eq!(count_matching_chars("é", "é"), 1);
}

#[test]
fn replacement_is_decided_by_the_number_of_occurrences() {
    match decide_replace("a b a", "a", "c") {
        ReplaceDecision::NotUnique(n) => assert_eq!(n, 2),
        _ => panic!("two occurrences"),
    }
    assert!(matches!(decide_replace("a b a", "z", "c"), ReplaceDecision::NotFound));
    match decide_replace("a b a", "b", "c") {
        ReplaceDecision::Replace(s) => assert_eq!(s, "a c a"),
        _ => panic!("one occurrence"),
    }
}
