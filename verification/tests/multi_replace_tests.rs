use workspace_ops::multi_replace::{
    applied_summary_text, apply_replacements, check_multi_request, check_replacement_count, check_replacement_pair,
    format_problem_line, validation_refusal_message, MultiRequestRefusal, ReplacementProblem,
};

fn pairs(v: &[(&str, &str)]) -> Vec<(String, String)> {
    v.iter().map(|(a, b)| (a.to_string(), b.to_string())).collect()
}

#[test]
fn replacements_apply_in_order_against_the_changed_text() {
    let r = apply_replacements("let a = 1;\nlet b = 2;\n", &pairs(&[("a = 1", "a = 10"), ("a = 10", "a = 11")]));
    assert_eq!(r.ok(), Some("let a = 11;\nlet b = 2;\n".to_string()));
}

#[test]
fn every_failed_pattern_is_named_and_nothing_changes() {
    let r = apply_replacements("x x y", &pairs(&[("x", "z"), ("y", "w"), ("q", "r")]));
    let problems = r.err().expect("refused");
    let got: Vec<(usize, usize)> = problems.iter().map(|p| (p.index, p.count)).collect();
    assert_eq!(got, vec![(0, 2), (2, 0)]);
    assert_eq!(format_problem_line(&problems[0], None), "Replacement 0: Pattern found 2 times (not unique)");
    assert_eq!(format_problem_line(&problems[1], None), "Replacement 2: Pattern NOT FOUND in file");
    let p = ReplacementProblem { index: 3, count: 0 };
    assert_eq!(format_problem_line(&p, Some((7, 64))), "Replacement 3: Pattern NOT FOUND (64% similar at line 7)");
    let g = validation_refusal_message("a.rs", &["l1".to_string(), "l2".to_string()]);
    assert_eq!(g.message, "Some patterns failed validation - NO changes applied");
    assert_eq!(g.guidance[1], "l1\nl2");
    assert_eq!(g.guidance[4], "💡 Use readFile('a.rs') to see current content");
}

#[test]
fn request_and_pair_checks() {
    assert!(matches!(check_multi_request(None, Some(1)), Err(MultiRequestRefusal::MissingParameter { field }) if field == "path"));
    match check_multi_request(Some("  "), Some(1)) {
        Err(MultiRequestRefusal::Refused(g)) => assert_eq!(g.message, "Parameter 'path' cannot be empty"),
        _ => panic!("blank path"),
    }
    assert!(matches!(check_multi_request(Some("a"), None), Err(MultiRequestRefusal::MissingParameter { field }) if field == "replacements"));
    match check_multi_request(Some("a"), Some(0)) {
        Err(MultiRequestRefusal::Refused(g)) => assert_eq!(g.message, "Parameter 'replacements' cannot be empty"),
        _ => panic!("empty list"),
    }
    assert_eq!(check_multi_request(Some(" a.rs "), Some(2)).ok(), Some("a.rs".to_string()));
    assert_eq!(check_replacement_pair(4, None, Some("x")).unwrap().message, "Missing 'oldString' at index 4");
    assert_eq!(check_replacement_pair(4, Some(""), Some("x")).unwrap().message, "oldString at index 4 cannot be empty");
    assert_eq!(check_replacement_pair(4, Some("a"), None).unwrap().message, "Missing 'newString' at index 4");
    assert_eq!(
        check_replacement_pair(4, Some("a"), Some("a")).unwrap().message,
        "Replacement at index 4: oldString and newString are identical"
    );
    assert!(check_replacement_pair(4, Some("a"), Some("b")).is_none());
    assert!(check_replacement_count(50).is_none());
    assert_eq!(check_replacement_count(51).unwrap().message, "Too many replacements: 51 (maximum 50)");
}

#[test]
fn summary_of_applied_replacements() {
    let long = "x".repeat(60);
    let ps = pairs(&[("ab", "abc"), (&long, "y")]);
    let text = applied_summary_text("f.txt", &ps, "ab\n", "abc\n");
    let expected = format!(
        "**✅ Applied 2 Replacements Successfully**\n\n**File:** `f.txt`\n**Original:** 1 lines, 3 bytes\n**Modified:** 1 lines, 4 bytes (+1)\n\n**Changes Summary:**\n1. \"ab\" → \"abc\"\n2. \"{}...\" → \"y\"\n\n**Next Steps:**\n- 📖 Use `readFile(\"f.txt\")` to verify changes\n- 🔄 Use `editFile` to make further adjustments if needed",
        "x".repeat(47)
    );
    assert_eq!(text, expected);
    assert!(applied_summary_text("f", &pairs(&[("a", "b")]), "aaaa", "a").contains("(-3)"));
}
