use workspace_ops::hashline::{
    compute_anchor, compute_line_hash, format_as_hashlines, format_hashline, format_prefix_hash,
    initial_prefix_hash_state, make_anchor, update_prefix_hash_state, parse_anchor, ANCHOR_LEN, LINE_HASH_LEN, PREFIX_HASH_LEN,
};

#[test]
fn test_compute_line_hash_is_deterministic() {
    let h1 = compute_line_hash("fn main() {");
    let h2 = compute_line_hash("fn main() {");
    assert_eq!(h1, h2, "same input must always produce same hash");
}

#[test]
fn test_compute_line_hash_differs_for_different_content() {
    let h1 = compute_line_hash("fn foo() {");
    let h2 = compute_line_hash("fn bar() {");
    assert_ne!(h1, h2, "different content should produce different hashes");
}

#[test]
fn test_compute_line_hash_is_two_hex_chars() {
    let h = compute_line_hash("let x = 42;");
    assert_eq!(h.len(), 2, "hash must be exactly 2 chars");
    assert!(h.chars().all(|c| c.is_ascii_hexdigit()), "hash must be hex");
}

#[test]
fn test_compute_line_hash_pipe_in_content_no_problem() {
    let h1 = compute_line_hash("let x = a | b | c;");
    let h2 = compute_line_hash("let x = a | b | c;");
    assert_eq!(h1, h2);
}

#[test]
fn test_anchor_changes_when_earlier_content_changes() {
    let original = format_as_hashlines("alpha\nbeta\ngamma");
    let changed = format_as_hashlines("alpha!\nbeta\ngamma");

    let original_third = original.lines().nth(2).unwrap();
    let changed_third = changed.lines().nth(2).unwrap();

    let original_parts: Vec<&str> = original_third.splitn(2, '|').collect();
    let changed_parts: Vec<&str> = changed_third.splitn(2, '|').collect();

    assert_ne!(original_parts[0], changed_parts[0]);
}

#[test]
fn test_format_as_hashlines_format() {
    let content = "fn foo() {\n    let x = 1;\n}";
    let result = format_as_hashlines(content);
    let lines: Vec<&str> = result.lines().collect();
    assert_eq!(lines.len(), 3);

    for (i, line) in lines.iter().enumerate() {
        let colon = line.find(':').expect("must contain first ':'");
        let pipe = line.find('|').expect("must contain '|'");
        assert!(pipe > colon, "pipe must come after colon");

        let line_num: usize = line[..colon].parse().expect("prefix must be a number");
        assert_eq!(line_num, i + 1, "line numbers must be 1-based");

        let anchor = &line[colon + 1..pipe];
        assert_eq!(anchor.len(), ANCHOR_LEN, "anchor section must be 6 chars");
        assert!(anchor.chars().all(|c| c.is_ascii_hexdigit()));
    }
}

#[test]
fn test_format_as_hashlines_anchor_starts_with_compute_line_hash() {
    let content = "hello world\nrust is great";
    let result = format_as_hashlines(content);
    let lines: Vec<&str> = result.lines().collect();

    for (i, raw_line) in content.lines().enumerate() {
        let hashline = lines[i];
        let pipe = hashline.find('|').unwrap();
        let colon = hashline.find(':').unwrap();
        let anchor = &hashline[colon + 1..pipe];
        let embedded_hash = &anchor[..LINE_HASH_LEN];
        let expected_hash = compute_line_hash(raw_line);
        assert_eq!(
            embedded_hash,
            expected_hash,
            "embedded hash must match compute_line_hash for line {}",
            i + 1
        );
    }
}

#[test]
fn test_format_as_hashlines_pipe_in_content_is_safe() {
    let content = "let x = a | b | c;";
    let result = format_as_hashlines(content);
    let line = result.lines().next().unwrap();
    assert!(
        line.ends_with("let x = a | b | c;"),
        "content after first pipe must be verbatim: got '{}'",
        line
    );
}

#[test]
fn test_parse_anchor_round_trips() {
    let mut prefix_state = initial_prefix_hash_state();
    let anchor = compute_anchor("alpha", &mut prefix_state);
    let (line_hash, prefix_hash) = parse_anchor(&anchor).expect("valid anchor");

    assert_eq!(line_hash.len(), LINE_HASH_LEN);
    assert_eq!(prefix_hash.len(), PREFIX_HASH_LEN);
    assert_eq!(anchor, make_anchor(line_hash, prefix_hash));
}

#[test]
fn prefix_state_absorbs_a_line_and_its_newline() {
    let s = update_prefix_hash_state(initial_prefix_hash_state(), "abc");
    assert_eq!(s, 0x6033cc93);
    assert_eq!(format_prefix_hash(s), "aca0");
    let mut state = initial_prefix_hash_state();
    let h = format_hashline(1, "abc", &mut state);
    assert_eq!(state, s);
    assert!(h.starts_with("1:"));
    assert!(h.ends_with("aca0|abc"));
}
