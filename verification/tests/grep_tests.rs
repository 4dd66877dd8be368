use workspace_ops::search::TextRegex;
use workspace_ops::search_args::{
    build_search_regex, check_glob_args, check_grep_args, internal_artifact_refusal, invalid_regex_message,
    route_search, SearchArgProblem, SearchRoute,
};
use workspace_ops::grep::{
    collect_matched_line_indices, format_grep_file_report, grep_lines, matched_line_indices, page_bounds,
    parse_pagination, reject_empty_optional_str, GrepLine,
};
use workspace_ops::hashline::format_as_hashlines;

fn plain(line: usize, text: &str) -> GrepLine {
    GrepLine { line, anchor: None, text: text.to_string() }
}

#[test]
fn spans_mark_every_line_they_touch() {
    let content = "alpha\nbeta\ngamma\n";
    // "alpha\n" is bytes 0..6, "beta\n" 6..11, "gamma\n" 11..17
    assert_eq!(matched_line_indices(content, &vec![(0, 3)]), vec![0]);
    assert_eq!(matched_line_indices(content, &vec![(4, 8)]), vec![0, 1]);
    assert_eq!(matched_line_indices(content, &vec![(6, 6)]), vec![1]);
    assert_eq!(matched_line_indices(content, &vec![(17, 17)]), vec![2]);
    assert_eq!(matched_line_indices(content, &vec![(12, 14), (0, 1), (1, 2)]), vec![0, 2]);
    assert_eq!(matched_line_indices(content, &vec![]), Vec::<usize>::new());
    assert_eq!(matched_line_indices("", &vec![(0, 0)]), Vec::<usize>::new());
}

#[test]
fn multi_byte_text_maps_bytes_to_lines() {
    let content = "é\nü\n";
    // 'é' and 'ü' take two bytes each
    assert_eq!(matched_line_indices(content, &vec![(3, 5)]), vec![1]);
    assert_eq!(matched_line_indices(content, &vec![(0, 5)]), vec![0, 1]);
    assert_eq!(matched_line_indices(content, &vec![(0, 3)]), vec![0]);
}

#[test]
fn regex_matches_across_lines_mark_each_line() {
    let re = TextRegex::new("a\nb").unwrap();
    assert_eq!(collect_matched_line_indices("xa\nby\nz", &re), vec![0, 1]);
    let word = TextRegex::new("fn").unwrap();
    assert_eq!(collect_matched_line_indices("fn a() {}\nlet x;\nfn b() {}", &word), vec![0, 2]);
    let none = TextRegex::new("zzz").unwrap();
    assert!(collect_matched_line_indices("abc", &none).is_empty());
}

#[test]
fn grep_lines_anchor_like_a_read() {
    let content = "first\nsecond\nthird";
    let listing = format_as_hashlines(content);
    let read_lines: Vec<&str> = listing.lines().collect();
    let hits = grep_lines(content, &vec![1, 2], true);
    assert_eq!(hits.len(), 2);
    assert_eq!(hits[0].line, 2);
    assert_eq!(hits[0].text, "second");
    let anchor = hits[0].anchor.clone().unwrap();
    assert_eq!(read_lines[1], format!("2:{}|second", anchor));
    assert_eq!(read_lines[2], format!("3:{}|third", hits[1].anchor.clone().unwrap()));
    let bare = grep_lines(content, &vec![0], false);
    assert!(bare[0].anchor.is_none());
    assert_eq!(bare[0].text, "first");
}

#[test]
fn file_report_without_matches_names_the_options() {
    let text = format_grep_file_report("foo", "src/a.rs", true, "rust", &[], 0, 50, false);
    assert_eq!(
        text,
        "**🔍 Search Results: No matches found**\n\nPattern: `foo`\nFile: `src/a.rs`\nOptions: case-insensitive\n"
    );
}

#[test]
fn file_report_pages_the_matches() {
    let all = vec![plain(2, "foo bar"), plain(5, "foo")];
    let first = format_grep_file_report("foo", "src/a.rs", false, "rust", &all, 0, 1, false);
    assert_eq!(
        first,
        "**🔍 Search Results: 2 match(es) found**\n\nFile: `src/a.rs`\nPattern: `foo`\n\n```rust\nLine 2: foo bar\n```\n\n*(Showing 1 to 1 of 2 total matches. Call search with offset: 1 to see more)*\n\nIf you plan to use editFiles next, run again with `showLineAnchors: true` to get anchors.\n"
    );
    let second = format_grep_file_report("foo", "src/a.rs", false, "rust", &all, 1, 5, false);
    assert!(second.contains("```rust\nLine 5: foo\n```\n\n*(Showing 2 to 2 of 2 total matches)*\n\n"));
    let anchored = vec![GrepLine { line: 5, anchor: Some("abc123".to_string()), text: "foo".to_string() }];
    let third = format_grep_file_report("foo", "a", false, "", &anchored, 0, 50, true);
    assert_eq!(
        third,
        "**🔍 Search Results: 1 match(es) found**\n\nFile: `a`\nPattern: `foo`\n\n```\n5:abc123|foo\n```\n\nUse the returned anchors with editFiles. For range replacement/deletion, also copy endAnchor from the exact end line.\n"
    );
}

#[test]
fn page_bounds_clamp_to_the_total() {
    assert_eq!(page_bounds(10, 0, 3), (0, 3));
    assert_eq!(page_bounds(10, 8, 3), (8, 10));
    assert_eq!(page_bounds(10, 12, 3), (10, 10));
}

#[test]
fn pagination_defaults_and_limits() {
    assert_eq!(parse_pagination(None, None).ok(), Some((50, 0)));
    assert_eq!(parse_pagination(Some(1000), Some(7)).ok(), Some((1000, 7)));
    let zero = parse_pagination(Some(0), None).err().unwrap();
    assert_eq!(zero.message, "Invalid pagination parameter: limit must be between 1 and 1000, got 0");
    assert_eq!(zero.guidance, vec!["Set limit to a value between 1 and 1000", "Use offset to paginate through additional results"]);
    let big = parse_pagination(Some(1001), Some(0)).err().unwrap();
    assert_eq!(big.message, "Invalid pagination parameter: limit must be between 1 and 1000, got 1001");
}

#[test]
fn empty_optional_text_is_refused() {
    let e = reject_empty_optional_str(Some(""), "pattern", vec!["Give a pattern".to_string()]).err().unwrap();
    assert_eq!(e.message, "Invalid pattern: pattern must not be empty");
    assert_eq!(e.guidance, vec!["Give a pattern"]);
    assert_eq!(reject_empty_optional_str(Some("x"), "pattern", vec![]).ok(), Some(Some("x")));
    assert_eq!(reject_empty_optional_str(None, "pattern", vec![]).ok(), Some(None));
}

#[test]
fn search_routes_and_argument_checks() {
    assert!(matches!(route_search(Some("x"), Some("*.rs")), SearchRoute::Content));
    assert!(matches!(route_search(None, Some("*.rs")), SearchRoute::FileNames));
    match route_search(Some(""), None) {
        SearchRoute::Refused { message, guidance } => {
            assert_eq!(message, "Invalid query: query must not be empty");
            assert_eq!(guidance.len(), 2);
        }
        _ => panic!("expected a refusal"),
    }
    match route_search(None, None) {
        SearchRoute::Refused { message, .. } => {
            assert_eq!(message, "Provide either 'query' (to search text) or 'filePattern' (to find files)")
        }
        _ => panic!("expected a refusal"),
    }
    match check_grep_args(Some("src"), Some("fn"), None) {
        Ok(a) => {
            assert_eq!(a.path, "src");
            assert_eq!(a.query, "fn");
            assert!(a.file_pattern.is_none());
        }
        Err(_) => panic!("expected arguments"),
    }
    assert!(matches!(check_grep_args(None, Some("fn"), None), Err(SearchArgProblem::Missing { .. })));
    match check_grep_args(Some("src"), Some("fn"), Some("")) {
        Err(SearchArgProblem::Invalid(e)) => assert_eq!(e.message, "Invalid filePattern: filePattern must not be empty"),
        _ => panic!("expected a refusal"),
    }
    match check_glob_args(Some("src"), None) {
        Err(SearchArgProblem::Missing { field }) => assert_eq!(field, "filePattern"),
        _ => panic!("expected a missing pattern"),
    }
    assert_eq!(check_glob_args(Some("src"), Some("*.rs")).ok(), Some(("src".to_string(), "*.rs".to_string())));
    let (m, g) = internal_artifact_refusal();
    assert_eq!(m, "Internal LibrAgent temp/export artifacts are excluded from search");
    assert_eq!(g.len(), 3);
    assert!(build_search_regex("a(b", false).is_err());
    let re = build_search_regex("^B$", true).ok().unwrap();
    assert_eq!(collect_matched_line_indices("a\nb\nc", &re), vec![1]);
    let (m, _) = invalid_regex_message("oops");
    assert_eq!(m, "Invalid regex pattern: oops");
}
