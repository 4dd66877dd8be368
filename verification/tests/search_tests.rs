use workspace_ops::braces::{expand_brace_globs, parse_brace_group, UNMATCHED_BRACE_ERROR};
use workspace_ops::search::{
    glob_match_candidates, grep_preview_for_match, match_window_char_range, matches_glob,
    preview_grep_match_line, preview_grep_match_line_with_limit, GlobMatcher, TextRegex, MAX_GREP_MATCH_LINE_CHARS,
};

#[test]
fn short_line_is_unchanged() {
    let regex = TextRegex::new("needle").unwrap();
    assert_eq!(
        preview_grep_match_line_with_limit("keep needle intact", &regex, 200),
        "keep needle intact"
    );
}

#[test]
fn long_line_keeps_match_near_the_end() {
    let regex = TextRegex::new("hf_secret").unwrap();
    let line = format!("{}hf_secret{}", "x".repeat(8000), "y".repeat(8000));
    let preview = preview_grep_match_line_with_limit(&line, &regex, 40);
    assert!(preview.contains("hf_secret"), "{preview}");
    assert!(
        preview.contains("16009 chars total, line continues"),
        "{preview}"
    );
    assert!(!preview.contains(&"x".repeat(40)), "{preview}");
    assert!(preview.chars().count() < 120, "{}", preview.chars().count());
}

#[test]
fn default_limit_is_two_hundred_chars() {
    assert_eq!(MAX_GREP_MATCH_LINE_CHARS, 200);
}

#[test]
fn expands_extension_list() {
    let mut got = expand_brace_globs("*.{py,yaml}").unwrap();
    got.sort();
    assert_eq!(got, vec!["*.py".to_string(), "*.yaml".to_string()]);
}

#[test]
fn expands_nested_and_cartesian_groups() {
    let mut nested = expand_brace_globs("{a,{b,c}}").unwrap();
    nested.sort();
    assert_eq!(
        nested,
        vec!["a".to_string(), "b".to_string(), "c".to_string()]
    );

    let mut cartesian = expand_brace_globs("{src,lib}/*.{ts,js}").unwrap();
    cartesian.sort();
    assert_eq!(
        cartesian,
        vec![
            "lib/*.js".to_string(),
            "lib/*.ts".to_string(),
            "src/*.js".to_string(),
            "src/*.ts".to_string(),
        ]
    );
}

#[test]
fn literal_braces_without_comma_stay_unexpanded() {
    assert_eq!(
        expand_brace_globs("file{backup}").unwrap(),
        vec!["file{backup}".to_string()]
    );
}

#[test]
fn unmatched_brace_is_an_error() {
    let err = expand_brace_globs("*.{py,yaml").unwrap_err();
    assert!(err.contains("unmatched"), "{err}");
}

#[test]
fn matcher_accepts_any_expanded_alternative() {
    let matcher = GlobMatcher::parse("*.{rs,ts}").unwrap();
    assert!(matches_glob(&matcher, "src/main.rs", Some("main.rs"), false));
    assert!(matches_glob(&matcher, "src/main.ts", Some("main.ts"), false));
    assert!(!matches_glob(&matcher, "src/main.py", Some("main.py"), false));
}

#[test]
fn search_files_test_matches_glob_unix() {
    let matcher = GlobMatcher::parse("src/**/*.rs").unwrap();
    assert!(matches_glob(&matcher, "src/main.rs", Some("main.rs"), true));
    assert!(matches_glob(&matcher, "src/subdir/test.rs", Some("test.rs"), true));
    assert!(!matches_glob(&matcher, "other/file.rs", Some("file.rs"), true));
}

#[test]
fn search_files_test_matches_glob_windows() {
    let matcher = GlobMatcher::parse("src/**/*.rs").unwrap();
    assert!(matches_glob(&matcher, "src\\main.rs", None, true));
    assert!(matches_glob(&matcher, "src\\subdir\\test.rs", None, true));
}

#[test]
fn search_files_test_matches_glob_filename() {
    let matcher = GlobMatcher::parse("*.txt").unwrap();
    assert!(matches_glob(&matcher, "path/to/file.txt", Some("file.txt"), true));
}

#[test]
fn search_query_test_matches_glob_unix() {
    let matcher = GlobMatcher::parse("src/**/*.rs").unwrap();
    assert!(matches_glob(&matcher, "src/main.rs", Some("main.rs"), true));
    assert!(matches_glob(&matcher, "src/subdir/test.rs", Some("test.rs"), true));
    assert!(!matches_glob(&matcher, "other/file.rs", Some("file.rs"), true));
}

#[test]
fn search_query_test_matches_glob_windows() {
    let matcher = GlobMatcher::parse("src/**/*.rs").unwrap();
    assert!(matches_glob(&matcher, "src\\main.rs", None, true));
    assert!(matches_glob(&matcher, "src\\subdir\\test.rs", None, true));
}

#[test]
fn search_query_test_matches_glob_filename() {
    let matcher = GlobMatcher::parse("*.txt").unwrap();
    assert!(matches_glob(&matcher, "path/to/file.txt", Some("file.txt"), true));
}

#[test]
fn brace_expansion_order_and_dedup() {
    // the worklist takes the last pending pattern first
    assert_eq!(
        expand_brace_globs("{a,b}").unwrap(),
        vec!["b".to_string(), "a".to_string()]
    );
    assert_eq!(expand_brace_globs("{a,a}").unwrap(), vec!["a".to_string()]);
    assert_eq!(expand_brace_globs("plain").unwrap(), vec!["plain".to_string()]);
}

#[test]
fn brace_expansion_is_capped() {
    // 3 groups of 5 alternatives stand for 125 globs
    let err = expand_brace_globs("{a,b,c,d,e}{a,b,c,d,e}{a,b,c,d,e}").unwrap_err();
    assert_eq!(err, "filePattern expands to more than 64 globs");
}

#[test]
fn invalid_glob_is_reported() {
    let err = GlobMatcher::parse("a***b").err().unwrap();
    assert!(err.starts_with("Invalid filePattern `a***b`: Pattern syntax error near position"), "{err}");
    assert_eq!(GlobMatcher::parse("*.{rs,ts}").unwrap().len(), 2);
}

#[test]
fn candidates_list_name_path_and_normalized_path() {
    assert_eq!(
        glob_match_candidates("a\\b.rs", Some("b.rs"), true),
        vec!["b.rs".to_string(), "a\\b.rs".to_string(), "a/b.rs".to_string()]
    );
    assert_eq!(glob_match_candidates("a\\b.rs", None, false), vec!["a\\b.rs".to_string()]);
}

#[test]
fn window_is_centred_and_kept_inside_the_line() {
    assert_eq!(match_window_char_range(100, 10, None), (0, 10));
    assert_eq!(match_window_char_range(100, 10, Some((50, 2))), (46, 56));
    assert_eq!(match_window_char_range(100, 10, Some((1, 2))), (0, 10));
    assert_eq!(match_window_char_range(100, 10, Some((97, 3))), (90, 100));
    assert_eq!(match_window_char_range(100, 10, Some((40, 20))), (40, 50));
}

#[test]
fn preview_marks_cut_ends() {
    let line = "0123456789abcdefghij";
    assert_eq!(
        grep_preview_for_match(line, 4, Some((10, 11))),
        "…9abc …[20 chars total, line continues]"
    );
    assert_eq!(grep_preview_for_match(line, 0, None), "…[20 chars total, line continues]");
    assert_eq!(grep_preview_for_match(line, 4, None), "0123 …[20 chars total, line continues]");
    // byte offsets are turned into character positions
    assert_eq!(
        grep_preview_for_match("ééééé", 2, Some((8, 10))),
        "…éé"
    );
}

#[test]
fn brace_groups_are_parsed_at_their_opening_brace() {
    let p: Vec<char> = "a{b,c{d,e}}f".chars().collect();
    let (end, alts) = parse_brace_group(&p, 1).expect("balanced").expect("a group");
    assert_eq!(end, 10);
    let alts: Vec<String> = alts.iter().map(|a| a.iter().collect()).collect();
    assert_eq!(alts, vec!["b".to_string(), "c{d,e}".to_string()]);
    let single: Vec<char> = "{x}".chars().collect();
    assert!(parse_brace_group(&single, 0).expect("balanced").is_none());
    let open: Vec<char> = "a{b,c".chars().collect();
    assert_eq!(parse_brace_group(&open, 1).err(), Some(UNMATCHED_BRACE_ERROR.to_string()));
}

#[test]
fn grep_preview_keeps_short_lines_and_centres_long_ones() {
    let re = TextRegex::new("needle").unwrap();
    assert_eq!(preview_grep_match_line("a needle here", &re), "a needle here");
    let long = format!("{}needle{}", "x".repeat(400), "y".repeat(400));
    let p = preview_grep_match_line(&long, &re);
    assert!(p.contains("needle"));
    assert!(p.chars().count() < long.chars().count());
}

#[test]
fn literal_and_star_globs_match() {
    let exact = GlobMatcher::parse("Cargo.toml").unwrap();
    assert!(matches_glob(&exact, "sub/Cargo.toml", Some("Cargo.toml"), false));
    assert!(!matches_glob(&exact, "sub/Cargo.lock", Some("Cargo.lock"), false));
    let all = GlobMatcher::parse("*").unwrap();
    assert!(matches_glob(&all, "any/path.txt", None, false));
}

#[test]
fn globs_without_separators_match_by_wildcards() {
    let rs = GlobMatcher::parse("*.rs").unwrap();
    assert!(matches_glob(&rs, "src/main.rs", Some("main.rs"), false));
    assert!(!matches_glob(&rs, "src/main.py", Some("main.py"), false));
    let one = GlobMatcher::parse("?.txt").unwrap();
    assert!(matches_glob(&one, "a.txt", Some("a.txt"), false));
    assert!(!matches_glob(&one, "ab.txt", Some("ab.txt"), false));
    let class = GlobMatcher::parse("[ab].md").unwrap();
    assert!(matches_glob(&class, "b.md", Some("b.md"), false));
    assert!(!matches_glob(&class, "c.md", Some("c.md"), false));
    assert!(GlobMatcher::parse("a/***/b").is_err());
}
