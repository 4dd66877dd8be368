use workspace_ops::lines_search::{
    build_lines_regex, format_lines_dir_report, format_lines_report, matching_lines, no_text_refusal, FileLineHits,
    LineHit,
};

fn hit(line: usize, text: &str) -> LineHit {
    LineHit { line, text: text.to_string() }
}

#[test]
fn matching_lines_are_numbered_from_one() {
    let re = build_lines_regex("err", true, true).ok().unwrap();
    let hits = matching_lines("ok\nERROR one\nfine\nerr two", &re);
    let got: Vec<(usize, &str)> = hits.iter().map(|h| (h.line, h.text.as_str())).collect();
    assert_eq!(got, vec![(2, "ERROR one"), (4, "err two")]);
    let (m, g) = build_lines_regex("(", false, true).err().unwrap();
    assert!(m.starts_with("Invalid regex pattern: "));
    assert_eq!(g.len(), 3);
    let (_, g) = build_lines_regex("(", false, false).err().unwrap();
    assert_eq!(g[0], "Check regex syntax — use basic patterns like 'error|warning'");
}

#[test]
fn single_text_reports() {
    let none = format_lines_report("x", None, false, "", &[], true);
    assert_eq!(
        none,
        "**🔍 Search Results: No matches found**\n\nPattern: `x`\nOptions: case-sensitive\n\n**Next Steps:**\n- Try a different search pattern\n- Use ignoreCase: true for case-insensitive search\n- Check if the file contains the expected content with readFile"
    );
    let some = format_lines_report("a", Some("f.rs"), true, "rust", &[hit(3, "a = 1")], true);
    assert_eq!(
        some,
        "**🔍 Search Results: 1 match(es) found**\n\nFile: `f.rs`\nPattern: `a`\nOptions: case-insensitive\n\n```rust\nLine 3: a = 1\n```\n\n**Next Steps:**\n- Use readFile to see full file context\n- Use replaceLines to modify matched content\n- Refine search pattern for more specific results"
    );
    let many: Vec<LineHit> = (1..=22).map(|i| hit(i, "x")).collect();
    let text = format_lines_report("x", None, false, "", &many, false);
    assert!(text.contains("```\nx\n"));
    assert!(text.contains("*Showing first 20 of 22 total matches*\n\n"));
    assert_eq!(text.matches("\nx").count(), 20);
    let (m, g) = no_text_refusal();
    assert_eq!(m, "Either 'path' or 'input' parameter must be provided");
    assert_eq!(g.len(), 3);
}

#[test]
fn directory_reports() {
    let (none, steps) = format_lines_dir_report("x", "src", 3, &[], true);
    assert_eq!(none, "No matches for `x` in 3 file(s) under `src`");
    assert_eq!(steps.len(), 2);
    let files = vec![FileLineHits { rel_path: "a.rs".to_string(), hits: vec![hit(2, "  let x = 1;  ")] }];
    let (text, steps) = format_lines_dir_report("x", "src", 3, &files, true);
    assert_eq!(
        text,
        "**🔍 Directory Search: 1 match(es) in 1 file(s)** (searched 3 files)\nPattern: `x`  Path: `src`\n\n### `a.rs`\n- L2: `let x = 1;`\n\n"
    );
    assert_eq!(steps, vec!["Use path: \"file\" to narrow search to a specific file"]);
    let (bare, _) = format_lines_dir_report("x", "src", 3, &files, false);
    assert!(bare.contains("- `let x = 1;`\n"));
}

#[test]
fn only_matching_lines_are_reported() {
    let re = build_lines_regex("^fn ", false, true).ok().unwrap();
    let hits = matching_lines("fn a() {}\n  fn b() {}\nfn c() {}\n", &re);
    let got: Vec<(usize, &str)> = hits.iter().map(|h| (h.line, h.text.as_str())).collect();
    assert_eq!(got, vec![(1, "fn a() {}"), (3, "fn c() {}")]);
    assert!(matching_lines("nothing here", &re).is_empty());
}
