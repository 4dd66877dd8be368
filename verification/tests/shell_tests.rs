use workspace_ops::shell::{
    scan_output, sentinel_for, sentinel_missing_message, ScanPhase, ScanStep, ShellScan,
};

fn feed(scan: &mut ShellScan, line: &str, sentinel: &str) -> ScanStep {
    scan.on_stdout_line(Some(line), sentinel)
}

#[test]
fn output_until_sentinel_then_metadata() {
    let sentinel = sentinel_for(7);
    assert_eq!(sentinel, "STDIO_SENTINEL_7");
    let mut scan = ShellScan::new();
    assert!(matches!(feed(&mut scan, "hello\n", &sentinel), ScanStep::Continue));
    assert!(matches!(feed(&mut scan, "PS C:\\> \n", &sentinel), ScanStep::Continue));
    assert!(matches!(feed(&mut scan, "EXIT_CODE_9\n", &sentinel), ScanStep::Continue));
    scan.on_stderr_line(Some("warn\n"));
    scan.on_stderr_line(None);
    assert!(matches!(feed(&mut scan, "tailSTDIO_SENTINEL_7  \n", &sentinel), ScanStep::Continue));
    assert!(matches!(scan.phase, ScanPhase::Metadata));
    assert!(matches!(feed(&mut scan, "\n", &sentinel), ScanStep::Continue));
    assert!(matches!(feed(&mut scan, "__CWD__/home/me\n", &sentinel), ScanStep::Continue));
    assert!(matches!(feed(&mut scan, "EXIT_CODE_-2\n", &sentinel), ScanStep::Finished));
    assert!(matches!(scan.phase, ScanPhase::Done));
    assert_eq!(scan.exit_code, -2);
    assert_eq!(scan.cwd, "/home/me");
    let (out, err) = scan_output(&scan);
    assert_eq!(out, "hello\ntail");
    assert_eq!(err, "warn\n");
    assert!(matches!(feed(&mut scan, "more\n", &sentinel), ScanStep::Finished));
}

#[test]
fn unparsable_exit_code_counts_as_zero() {
    let sentinel = sentinel_for(1);
    let mut scan = ShellScan::new();
    feed(&mut scan, "STDIO_SENTINEL_1\n", &sentinel);
    assert!(matches!(feed(&mut scan, "EXIT_CODE_x\n", &sentinel), ScanStep::Finished));
    assert_eq!(scan.exit_code, 0);
    let (out, _) = scan_output(&scan);
    assert_eq!(out, "");
}

#[test]
fn end_of_output_before_sentinel_is_reported() {
    let sentinel = sentinel_for(2);
    let mut scan = ShellScan::new();
    feed(&mut scan, "partial\n", &sentinel);
    assert!(matches!(scan.on_stdout_line(None, &sentinel), ScanStep::SentinelMissing));
    assert_eq!(sentinel_missing_message(&sentinel), "Sentinel not found: STDIO_SENTINEL_2");
}
