use workspace_ops::replace::generate_replacement_context;
use workspace_ops::replace_preview::{
    decide_preview, parse_preview_request, preview_not_found_message, preview_read_failed_guidance,
    preview_ready_message, PreviewDecision, PreviewRefusal,
};

#[test]
fn preview_request_checks() {
    let r = parse_preview_request(Some("  a.rs "), Some("x"), Some("x")).ok().expect("identical strings are previewed");
    assert_eq!(r.path, "a.rs");
    let blank = parse_preview_request(Some(" "), Some("x"), Some("y")).err().expect("refused");
    assert!(matches!(blank, PreviewRefusal::EmptyPath));
    let g = blank.guided_message().expect("guided");
    assert_eq!(g.message, "Parameter 'path' cannot be empty");
    assert_eq!(g.guidance, vec!["Provide a valid file path".to_string()]);
    let empty_old = parse_preview_request(Some("a.rs"), Some(""), Some("y")).err().expect("refused");
    assert_eq!(empty_old.guided_message().expect("guided").message, "Parameter 'oldString' cannot be empty");
    let missing = parse_preview_request(Some("a.rs"), Some("x"), None).err().expect("refused");
    assert!(matches!(&missing, PreviewRefusal::MissingParameter { field } if field == "newString"));
    assert!(missing.guided_message().is_none());
}

#[test]
fn preview_decides_by_the_number_of_occurrences() {
    let content = "fn a() {}\nfn b() {}\nfn a() {}\n";
    match decide_preview("lib.rs", content, "fn a() {}", "fn c() {}") {
        PreviewDecision::NotUnique(g) => {
            assert_eq!(g.message, "Pattern found 2 times (not unique)");
            assert_eq!(g.guidance[1], "Use readFile('lib.rs') to see full content and find unique context");
        }
        _ => panic!("two occurrences are not unique"),
    }
    assert!(matches!(decide_preview("lib.rs", content, "fn z()", "x"), PreviewDecision::NotFound));
    match decide_preview("lib.rs", content, "fn b() {}", "fn c() {}") {
        PreviewDecision::Ready(g) => {
            let diff = generate_replacement_context(content, "fn b() {}", "fn c() {}");
            assert_eq!(
                g.message,
                format!("**🔍 Preview Replacement**\n\n**File:** `lib.rs`\n**Status:** ✅ EXACT MATCH FOUND\n\n**Changes Preview:**\n```diff\n{diff}\n```")
            );
            assert!(diff.contains("fn c() {}"));
            assert_eq!(g.guidance[0], "Preview looks correct? Call editFile with SAME parameters to apply");
        }
        _ => panic!("one occurrence is ready"),
    }
}

#[test]
fn preview_not_found_replies() {
    let g = preview_not_found_message("a.rs", Some((12, 87)), 3);
    assert_eq!(g.message, "Pattern NOT FOUND (but 87% similar at line 12)");
    assert_eq!(g.guidance[0], "Use readFile('a.rs', 12, 14) to see actual content on these lines");
    let g = preview_not_found_message("a.rs", None, 3);
    assert_eq!(g.message, "Pattern NOT FOUND in file");
    assert_eq!(g.guidance[0], "Use readFile('a.rs') to see full current content");
    assert_eq!(
        preview_read_failed_guidance("a.rs"),
        vec!["Verify file exists with listDirectory".to_string(), "Use readFile('a.rs') to check content".to_string()]
    );
    assert_eq!(preview_ready_message("x", "d").guidance.len(), 2);
}
