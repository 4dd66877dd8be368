use workspace_ops::dir_search::{is_internal_artifact_path, scoped_gitignore_decision, GitignoreVerdict};
use workspace_ops::dir_search::{
    binary_file_message, classify_search_entry_skip, effective_search_content_file_size_limit, file_too_large_message,
    format_dir_search_report,
    format_file_search_report, is_skipped_dir_name, skips_binary_extension, FileHits, FoundEntry, SearchCounts,
    SkipReason,
};
use workspace_ops::grep::GrepLine;

fn hit(line: usize, text: &str) -> GrepLine {
    GrepLine { line, anchor: None, text: text.to_string() }
}

fn counts(searched: usize) -> SearchCounts {
    SearchCounts { files_searched: searched, heavy_dirs: 0, gitignored_dirs: 0, large_files: 0, binary_files: 0, max_size: 5242880 }
}

#[test]
fn walk_skips_heavy_ignored_and_internal_directories() {
    assert!(is_skipped_dir_name("node_modules") && is_skipped_dir_name(".git") && !is_skipped_dir_name("src"));
    assert!(classify_search_entry_skip(true, true, true, true, Some("node_modules")).is_none());
    assert!(matches!(classify_search_entry_skip(false, true, true, true, Some("x")), Some(SkipReason::InternalArtifactDirectory)));
    assert!(matches!(classify_search_entry_skip(false, false, true, true, Some("x")), Some(SkipReason::Gitignored)));
    assert!(matches!(classify_search_entry_skip(false, true, false, false, Some("target")), Some(SkipReason::HeavyweightDirectory)));
    assert!(classify_search_entry_skip(false, false, false, false, Some("target")).is_none());
    assert!(classify_search_entry_skip(false, true, false, false, None).is_none());
}

#[test]
fn binary_extensions_are_skipped_in_any_case() {
    assert!(skips_binary_extension(Some("png")));
    assert!(skips_binary_extension(Some("PNG")));
    assert!(skips_binary_extension(Some("woff2")));
    assert!(!skips_binary_extension(Some("rs")));
    assert!(!skips_binary_extension(None));
    assert_eq!(effective_search_content_file_size_limit(1000), 1000);
    assert_eq!(effective_search_content_file_size_limit(10_000_000), 5_242_880);
}

#[test]
fn file_search_reports() {
    let (none, steps) = format_file_search_report("*.zz", "src", &[], 0, 50, 0, 0);
    assert_eq!(none, "**🔍 File Search: No matches found**\n\nPattern: `*.zz`\nSearch Path: `src`");
    assert_eq!(steps.len(), 2);
    let found = vec![
        FoundEntry { path: "a.rs".to_string(), is_dir: false, size: Some(10) },
        FoundEntry { path: "sub".to_string(), is_dir: true, size: None },
    ];
    let (text, steps) = format_file_search_report("*", ".", &found, 0, 1, 1, 2);
    assert_eq!(
        text,
        "**🔍 File Search: 2 file(s) found**\n\nPattern: `*`\nSearch Path: `.`\n\n| Type | Path | Size |\n|---|---|---|\n| 📄 file | `a.rs` | 10 B |\n\n*(Showing 1 to 1 of 2 total matches. Call search with offset: 1 to see more)*\n*Skipped 1 heavyweight directory (`.git`, `node_modules`, `dist`, `target`, `.next`, `coverage`)*\n*Skipped 2 .gitignore-matched directories*\n"
    );
    assert_eq!(steps.len(), 3);
}

#[test]
fn directory_search_without_matches() {
    let mut c = counts(4);
    c.large_files = 1;
    c.binary_files = 2;
    let (text, steps) = format_dir_search_report("foo", "src", false, &[], 0, 50, false, &c);
    assert_eq!(text, "No matches for `foo` in 4 file(s) under `src` (Options: case-sensitive)");
    assert_eq!(
        steps,
        vec![
            "Try a broader pattern or check the directory path",
            "Try toggling ignoreCase",
            "Skipped 1 large file(s) over 5.00 MB; narrow the search path if you need those files",
            "Skipped 2 binary-looking file(s); refine filePattern if you need a specific artifact",
        ]
    );
}

#[test]
fn directory_search_shows_five_hits_per_file() {
    let many: Vec<GrepLine> = (1..=7).map(|i| hit(i, &format!("  hit {i}  "))).collect();
    let files = vec![
        FileHits { rel_path: "a.rs".to_string(), hits: many },
        FileHits { rel_path: "b.rs".to_string(), hits: vec![GrepLine { line: 3, anchor: Some("abcdef".to_string()), text: "x".to_string() }] },
    ];
    let mut c = counts(9);
    c.binary_files = 1;
    let (text, steps) = format_dir_search_report("hit", "src", true, &files, 0, 50, false, &c);
    assert_eq!(
        text,
        "**🔍 Directory Search: 8 match(es) in 2 file(s)** (searched 9 files)\nPattern: `hit`  Path: `src`\nOptions: case-insensitive\n\n### `a.rs`\n- L1: `hit 1`\n- L2: `hit 2`\n- L3: `hit 3`\n- L4: `hit 4`\n- L5: `hit 5`\n  ... and 2 more matches in this file (showing first 5 per file)\n\n### `b.rs`\n3:abcdef|x\n\n\n*Skipped 1 binary-looking file(s)*\n"
    );
    assert_eq!(steps[1], "Run with `showLineAnchors: true` to get anchors for targeted editing tools.");
    let (paged, _) = format_dir_search_report("hit", "src", true, &files, 1, 50, true, &counts(9));
    assert!(paged.contains("### `b.rs`\n3:abcdef|x\n\n*(Showing 2 to 2 of 2 total files with matches)*\n"));
}

#[test]
fn single_file_refusals() {
    let (m, g) = file_too_large_message(6_000_000, 5_242_880);
    assert_eq!(m, "Failed to search file: file size 5.72 MB exceeds the search limit of 5.00 MB.");
    assert_eq!(g.len(), 2);
    let (m, _) = binary_file_message("img.dat");
    assert_eq!(m, "Failed to search file: `img.dat` appears to be binary data.");
}

#[test]
fn deepest_matching_gitignore_decides() {
    assert!(!scoped_gitignore_decision(&[]));
    assert!(scoped_gitignore_decision(&[GitignoreVerdict::Ignore, GitignoreVerdict::Unmatched]));
    assert!(!scoped_gitignore_decision(&[GitignoreVerdict::Ignore, GitignoreVerdict::Whitelist]));
    assert!(scoped_gitignore_decision(&[GitignoreVerdict::Whitelist, GitignoreVerdict::Ignore]));
    assert!(!scoped_gitignore_decision(&[GitignoreVerdict::Unmatched]));
}

#[test]
fn internal_artifact_directories_are_recognised() {
    assert!(is_internal_artifact_path(".libragent/tmp"));
    assert!(is_internal_artifact_path(".libragent/exports/report.md"));
    assert!(!is_internal_artifact_path(".libragent/tmpfile"));
    assert!(!is_internal_artifact_path("src/.libragent/tmp"));
    assert!(!is_internal_artifact_path(".libragent"));
}
