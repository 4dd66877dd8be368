use workspace_ops::terminal::{
    build_read_error, format_pagination_note, format_read_output_text, format_stream_section, merge_next_offset,
    next_page_offset, parse_read_output_request, read_output_next_actions, stream_missing_reads_as_empty, OffsetArg,
    OutputSelection, ReadOutputRefusal,
};

#[test]
fn read_output_request_defaults_to_twenty_tail_lines() {
    let r = parse_read_output_request(Some("both"), None, None, OffsetArg::Absent).ok().expect("accepted");
    assert_eq!(r.selection, OutputSelection::Both);
    assert!(!r.head);
    assert_eq!(r.lines, 20);
    assert_eq!(r.offset, None);
    let capped = parse_read_output_request(Some("stdout"), Some("head"), Some(500), OffsetArg::Number(40))
        .ok()
        .expect("accepted");
    assert_eq!(capped.lines, 100);
    assert_eq!(capped.offset, Some(40));
}

#[test]
fn read_output_request_refusals() {
    assert!(matches!(
        parse_read_output_request(None, None, None, OffsetArg::Absent),
        Err(ReadOutputRefusal::MissingStream)
    ));
    assert!(matches!(
        parse_read_output_request(Some("all"), None, None, OffsetArg::Absent),
        Err(ReadOutputRefusal::InvalidStream(s)) if s == "all"
    ));
    assert!(matches!(
        parse_read_output_request(Some("stderr"), Some("middle"), None, OffsetArg::Absent),
        Err(ReadOutputRefusal::InvalidMode(m)) if m == "middle"
    ));
    assert!(matches!(
        parse_read_output_request(Some("stderr"), None, Some(0), OffsetArg::Absent),
        Err(ReadOutputRefusal::ZeroLines)
    ));
    assert!(matches!(
        parse_read_output_request(Some("stderr"), Some("head"), None, OffsetArg::Invalid),
        Err(ReadOutputRefusal::OffsetNotANumber)
    ));
    assert!(matches!(
        parse_read_output_request(Some("stderr"), None, None, OffsetArg::Number(0)),
        Err(ReadOutputRefusal::OffsetWithoutHead)
    ));
}

#[test]
fn pages_continue_until_the_stream_ends() {
    assert_eq!(next_page_offset(0, 20, 45), Some(20));
    assert_eq!(next_page_offset(40, 20, 45), None);
    assert_eq!(next_page_offset(usize::MAX, 20, 45), None);
    assert_eq!(merge_next_offset(None, Some(20)), Some(20));
    assert_eq!(merge_next_offset(Some(30), Some(20)), Some(30));
    assert_eq!(merge_next_offset(Some(30), None), Some(30));
}

#[test]
fn pagination_notes() {
    assert_eq!(
        format_pagination_note(0, Some(20), true),
        "\n\nPagination: page starts at offset 0. Read the next page with offset=20."
    );
    assert_eq!(
        format_pagination_note(40, None, true),
        "\n\nPagination: no more output is available now at offset 40. The process is still running; retry with offset=40 after it produces more output."
    );
    assert_eq!(format_pagination_note(40, None, false), "\n\nPagination: this is the final page.");
}

#[test]
fn stream_sections_and_the_whole_reply() {
    assert_eq!(format_stream_section("stderr", &[]), "[STDERR]\n(no output)");
    let out = format_stream_section("stdout", &["a".to_string(), "b".to_string()]);
    assert_eq!(out, "[STDOUT]\na\nb");
    let text = format_read_output_text(
        "p1",
        OutputSelection::Both,
        true,
        "running",
        &["/tmp/p1.out".to_string(), "/tmp/p1.err".to_string()],
        &[out, format_stream_section("stderr", &[])],
        Some((0, Some(2))),
        true,
    );
    assert_eq!(
        text,
        "Read output from process p1 (stream: both, mode: head, status: running)\n\nInternal output files (absolute paths, not workspace-relative):\n- stdout: /tmp/p1.out\n- stderr: /tmp/p1.err\n\n[STDOUT]\na\nb\n\n[STDERR]\n(no output)\n\nPagination: page starts at offset 0. Read the next page with offset=2."
    );
}

#[test]
fn read_errors_are_classified_by_their_text() {
    let (t, g) = build_read_error("p1", "stdout", "No such file or directory (os error 2)");
    assert_eq!(t, "No stdout output file found");
    assert_eq!(g[1], "Use workspace__waitForProcess(\"p1\", 0) to verify process status");
    let (t, g) = build_read_error("p1", "stderr", "Permission denied");
    assert_eq!(t, "Permission denied reading output");
    assert_eq!(g[0], "Cannot read stderr stream for process \"p1\"");
    assert_eq!(build_read_error("p1", "stdout", "file too large").0, "Output file too large");
    assert_eq!(build_read_error("p1", "stdout", "stream did not contain valid UTF-8").0, "Output contains non-UTF-8 data");
    let (t, g) = build_read_error("p1", "stdout", "disk exploded");
    assert_eq!(t, "Failed to read process output");
    assert_eq!(g[1], "Check stream=\"stdout\" is correct (stdout, stderr, or both)");
    assert!(stream_missing_reads_as_empty("File NOT FOUND"));
    assert!(!stream_missing_reads_as_empty("Permission denied"));
}

#[test]
fn next_actions_only_while_running() {
    assert_eq!(
        read_output_next_actions("p1", true),
        vec![
            "Use workspace__waitForProcess('p1', 0) to check whether it has finished".to_string(),
            "Use workspace__stopProcess('p1') only if the running process is stuck".to_string(),
        ]
    );
    assert!(read_output_next_actions("p1", false).is_empty());
}
