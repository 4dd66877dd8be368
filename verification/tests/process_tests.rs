use workspace_ops::processes::{
    check_process_session, decide_stop, decide_wait, format_process_summary, output_not_registered_message, list_next_actions, list_processes, record_poll,
    sort_processes_newest_first, status_filter_admits, stop_not_found_message, wait_not_found_message,
    wait_timed_out_message, ProcessInfo, SessionTool, StopDecision, WaitDecision,
};

fn proc_info(id: &str, status: &str, started: &str, name: &str) -> ProcessInfo {
    ProcessInfo {
        id: id.to_string(),
        name: name.to_string(),
        command: format!("run {id}"),
        status: status.to_string(),
        pid: Some(42),
        exit_code: None,
        started_at: started.to_string(),
        active: status == "running",
        ended: status == "finished" || status == "failed",
    }
}

#[test]
fn processes_are_listed_newest_first() {
    let mut ps = vec![
        proc_info("p1", "finished", "2024-01-01T10:00:00Z", ""),
        proc_info("p2", "running", "2024-01-02T10:00:00Z", ""),
        proc_info("p3", "failed", "2024-01-01T12:00:00Z", ""),
    ];
    sort_processes_newest_first(&mut ps);
    let ids: Vec<&str> = ps.iter().map(|p| p.id.as_str()).collect();
    assert_eq!(ids, vec!["p2", "p3", "p1"]);
}

#[test]
fn status_filter_selects_running_or_finished() {
    let r = proc_info("a", "running", "t", "");
    let f = proc_info("b", "failed", "t", "");
    assert!(status_filter_admits("running", &r));
    assert!(!status_filter_admits("running", &f));
    assert!(status_filter_admits("finished", &f));
    assert!(!status_filter_admits("finished", &r));
    assert!(status_filter_admits("all", &r) && status_filter_admits("anything", &f));
}

#[test]
fn summary_lists_each_process() {
    let mut a = proc_info("p1", "finished", "t", "build");
    a.exit_code = Some(-1);
    let mut b = proc_info("p2", "running", "t", "");
    b.pid = None;
    let text = format_process_summary(&[a, b], 1, 1);
    assert_eq!(
        text,
        "Found 2 processes (1 running, 1 finished)\n\n• p1 [finished] (PID: 42) [exit: -1]\n  Name: build\n  Command: run p1\n\n• p2 [running]\n  Command: run p2"
    );
    assert_eq!(format_process_summary(&[], 0, 0), "Found 0 processes (0 running, 0 finished)\n\nNo processes found in current session");
}

#[test]
fn next_actions_follow_the_newest_process() {
    assert!(list_next_actions(&[]).is_empty());
    let running = list_next_actions(&[proc_info("p9", "running", "t", "")]);
    assert_eq!(
        running,
        vec![
            "Use waitForProcess('p9', 0) to check status",
            "Use readProcessOutput('p9', 'both') to inspect stdout and stderr",
            "Use stopProcess('p9') to terminate running process",
        ]
    );
    let done = list_next_actions(&[proc_info("p1", "finished", "t", "")]);
    assert_eq!(done[1], "Use listProcesses() again if you need another processId from this session");
    let other = list_next_actions(&[proc_info("p1", "starting", "t", "")]);
    assert_eq!(other.len(), 2);
}

#[test]
fn wait_decisions() {
    assert!(matches!(decide_wait(true, true, true, true), WaitDecision::ReportEnded));
    assert!(matches!(decide_wait(false, true, false, true), WaitDecision::ReportCurrent));
    assert!(matches!(decide_wait(false, true, true, false), WaitDecision::ExcessivePolling));
    assert!(matches!(decide_wait(false, false, false, true), WaitDecision::TimedOut));
    assert!(matches!(decide_wait(false, false, false, false), WaitDecision::KeepWaiting));
    assert_eq!(record_poll(true, 4, true, 5), (5, true));
    assert_eq!(record_poll(true, 1, false, 2), (2, false));
    assert_eq!(record_poll(false, 9, true, 1), (0, false));
}

#[test]
fn wait_and_stop_refusals() {
    let others: Vec<ProcessInfo> = (1..=7).map(|i| proc_info(&format!("p{i}"), "running", "t", "")).collect();
    let w = wait_not_found_message("zz", &others);
    assert_eq!(w.message, "Process 'zz' not found in session");
    assert_eq!(
        w.guidance[0],
        "Available processes: p1 [run p1], p2 [run p2], p3 [run p3], p4 [run p4], p5 [run p5]"
    );
    let none = wait_not_found_message("zz", &[]);
    assert_eq!(none.guidance[0], "No processes found in this session");
    let t = wait_timed_out_message("p1", 30);
    assert_eq!(t.message, "Timeout waiting for process p1 (30s)");
    assert_eq!(t.guidance.len(), 3);
    let s = stop_not_found_message("zz", &others[..1]);
    assert_eq!(s.message, "Process 'zz' not found");
    assert_eq!(s.guidance, vec!["Running processes: p1 [run p1]", "Use listProcesses() to see all processes", "Only running processes can be stopped"]);
    let s0 = stop_not_found_message("zz", &[]);
    assert_eq!(s0.guidance[0], "No running processes found in this session");
}

#[test]
fn listing_filters_orders_and_counts_the_session() {
    let p = |id: &str, status: &str, started: &str, active: bool, ended: bool| ProcessInfo {
        id: id.to_string(),
        name: String::new(),
        command: format!("run {id}"),
        status: status.to_string(),
        pid: None,
        exit_code: None,
        started_at: started.to_string(),
        active,
        ended,
    };
    let session = vec![
        p("a", "finished", "2024-01-01T00:00:00Z", false, true),
        p("b", "running", "2024-01-03T00:00:00Z", true, false),
        p("c", "running", "2024-01-02T00:00:00Z", true, false),
    ];
    let listing = list_processes(session, "running");
    let ids: Vec<&str> = listing.shown.iter().map(|x| x.id.as_str()).collect();
    assert_eq!(ids, vec!["b", "c"]);
    assert_eq!(listing.running, 2);
    assert_eq!(listing.finished, 1);
    assert!(listing.text.starts_with("Found 2 processes (2 running, 1 finished)\n\n• b [running]"));
    assert_eq!(listing.next_actions[0], "Use waitForProcess('b', 0) to check status");
    let none = list_processes(Vec::new(), "all");
    assert_eq!(none.text, "Found 0 processes (0 running, 0 finished)\n\nNo processes found in current session");
    assert!(none.next_actions.is_empty());
}

#[test]
fn stopping_needs_a_live_process_of_the_session() {
    let mk = |id: &str, status: &str, active: bool, pid: Option<u64>| ProcessInfo {
        id: id.to_string(),
        name: String::new(),
        command: format!("run {id}"),
        status: status.to_string(),
        pid,
        exit_code: None,
        started_at: "2024-01-01T00:00:00Z".to_string(),
        active,
        ended: !active,
    };
    let session = || vec![mk("a", "finished", false, Some(7)), mk("b", "running", true, Some(42))];
    match decide_stop("b", session()) {
        StopDecision::Stop { signal } => assert_eq!(signal, Some(42)),
        _ => panic!("a running process is stopped"),
    }
    match decide_stop("a", session()) {
        StopDecision::AlreadyEnded(g) => {
            assert_eq!(g.message, "Process a has already terminated with status: finished");
            assert_eq!(g.guidance[1], "Only running processes can be stopped");
        }
        _ => panic!("an ended process is refused"),
    }
    match decide_stop("zz", session()) {
        StopDecision::NotFound(g) => {
            assert_eq!(g.message, "Process 'zz' not found");
            assert_eq!(g.guidance[0], "Running processes: b [run b]");
        }
        _ => panic!("an unknown id is refused"),
    }
}

#[test]
fn processes_of_other_sessions_are_refused() {
    assert!(check_process_session("p1", "s1", "s1", SessionTool::Stop).is_none());
    let g = check_process_session("p1", "s2", "s1", SessionTool::ReadOutput).expect("refused");
    assert_eq!(g.message, "Process 'p1' not found in current session");
    assert_eq!(g.guidance[1], "Use workspace__listProcesses() to see processes in your session");
    let g = check_process_session("p1", "s2", "s1", SessionTool::Wait).expect("refused");
    assert_eq!(g.guidance, vec!["Process belongs to another session".to_string()]);
    let g = check_process_session("p1", "s2", "s1", SessionTool::Stop).expect("refused");
    assert_eq!(g.guidance[1], "Use listProcesses() to see processes in your session");
}

#[test]
fn unregistered_output_names_the_session_processes() {
    let g = output_not_registered_message("zz", &[]);
    assert_eq!(g.message, "Process 'zz' is not registered in this session");
    assert_eq!(g.guidance[0], "No processes found in this session");
    let others = vec![proc_info("a", "running", "2024-01-01T00:00:00Z", "")];
    let g = output_not_registered_message("zz", &others);
    assert!(g.guidance[0].starts_with("Available processes: a ["));
    assert_eq!(g.guidance.len(), 3);
}
