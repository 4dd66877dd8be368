//! Reading the reply of a persistent shell to one command. After the
//! command the shell is asked to echo a sentinel, its working directory
//! (`__CWD__...`) and the exit status (`EXIT_CODE_...`); the output is
//! collected line by line until the sentinel, then the two metadata lines
//! are read. The reads themselves are the caller's: it hands each line
//! to the scan and acts on the step that comes back.
use vstd::prelude::*;
use crate::text::{chars_of, dec, ends_with, ends_with_exec, join, join_chars, parse_i32, parse_i32_spec, push_dec, push_str, slice_chars, starts_with, starts_with_exec, string_from_chars, trim, trim_chars, trim_end, trim_start, is_ws_exec};
use crate::edit::string_views;

verus! {

/// The marker echoed after command number `id`.
pub open spec fn sentinel_text(id: nat) -> Seq<char> {
    "STDIO_SENTINEL_"@ + dec(id)
}

pub fn sentinel_for(id: u32) -> (r: String)
    ensures
        r@ == sentinel_text(id as nat),
{
    let mut out: Vec<char> = Vec::new();
    push_str(&mut out, "STDIO_SENTINEL_");
    push_dec(&mut out, id as u64);
    string_from_chars(out.as_slice())
}

/// Where the scan is: collecting output, reading the metadata after the
/// sentinel, or done.
pub enum ScanPhase {
    Output,
    Metadata,
    Done,
}

/// What the caller does next: read another line, or stop because the
/// exit status was read, or stop because standard output ended before the
/// sentinel.
pub enum ScanStep {
    Continue,
    Finished,
    SentinelMissing,
}

/// The state of a scan: the phase, the lines collected from each stream
/// (with their line endings), the exit status and the working directory.
pub struct ShellScan {
    pub phase: ScanPhase,
    pub stdout: Vec<String>,
    pub stderr: Vec<String>,
    pub exit_code: i32,
    pub cwd: String,
}

/// The scan, viewed.
pub struct ScanView {
    pub phase: ScanPhase,
    pub stdout: Seq<Seq<char>>,
    pub stderr: Seq<Seq<char>>,
    pub exit_code: i32,
    pub cwd: Seq<char>,
}

impl View for ShellScan {
    type V = ScanView;

    open spec fn view(&self) -> ScanView {
        ScanView {
            phase: self.phase,
            stdout: string_views(self.stdout@),
            stderr: string_views(self.stderr@),
            exit_code: self.exit_code,
            cwd: self.cwd@,
        }
    }
}

/// A PowerShell prompt line, which is skipped.
pub open spec fn is_prompt(line: Seq<char>) -> bool {
    starts_with(trim_start(line), "PS "@)
}

/// A stray metadata line seen before the sentinel, which is skipped.
pub open spec fn is_stray_metadata(line: Seq<char>) -> bool {
    starts_with(trim(line), "EXIT_CODE_"@) || starts_with(trim(line), "__CWD__"@)
}

/// The scan after one line of standard output (`None` when the stream
/// ended), and the step to take.
pub open spec fn stdout_step(s: ScanView, line: Option<Seq<char>>, sentinel: Seq<char>) -> (ScanView, ScanStep) {
    match s.phase {
        ScanPhase::Output => match line {
            None => (s, ScanStep::SentinelMissing),
            Some(l) => if is_prompt(l) {
                (s, ScanStep::Continue)
            } else if ends_with(trim_end(l), sentinel) {
                let before = trim_end(l).take(trim_end(l).len() - sentinel.len());
                (
                    ScanView {
                        phase: ScanPhase::Metadata,
                        stdout: if before.len() > 0 { s.stdout.push(before) } else { s.stdout },
                        ..s
                    },
                    ScanStep::Continue,
                )
            } else if is_stray_metadata(l) {
                (s, ScanStep::Continue)
            } else {
                (ScanView { stdout: s.stdout.push(l), ..s }, ScanStep::Continue)
            },
        },
        ScanPhase::Metadata => {
            let l = match line {
                Some(l) => l,
                None => Seq::<char>::empty(),
            };
            let clean = trim(l);
            if is_prompt(l) || clean.len() == 0 {
                (s, ScanStep::Continue)
            } else if starts_with(clean, "__CWD__"@) {
                (ScanView { cwd: clean.skip(7), ..s }, ScanStep::Continue)
            } else if starts_with(clean, "EXIT_CODE_"@) {
                let code = match parse_i32_spec(clean.skip(10)) {
                    Some(c) => c,
                    None => 0i32,
                };
                (ScanView { phase: ScanPhase::Done, exit_code: code, ..s }, ScanStep::Finished)
            } else {
                (s, ScanStep::Continue)
            }
        },
        ScanPhase::Done => (s, ScanStep::Finished),
    }
}

impl ShellScan {
    /// A scan that has seen nothing yet.
    pub fn new() -> (r: ShellScan)
        ensures
            r@.phase == ScanPhase::Output,
            r@.stdout.len() == 0,
            r@.stderr.len() == 0,
            r@.exit_code == 0,
            r@.cwd.len() == 0,
    {
        ShellScan { phase: ScanPhase::Output, stdout: Vec::new(), stderr: Vec::new(), exit_code: 0, cwd: String::new() }
    }

    /// Takes one line of standard output (`None` when the stream ended).
    pub fn on_stdout_line(&mut self, line: Option<&str>, sentinel: &str) -> (r: ScanStep)
        ensures
            (final(self)@, r) == stdout_step(
                old(self)@,
                match line {
                    Some(l) => Some(l@),
                    None => None,
                },
                sentinel@,
            ),
    {
        match self.phase {
            ScanPhase::Output => {
                let l = match line {
                    None => {
                        return ScanStep::SentinelMissing;
                    },
                    Some(l) => l,
                };
                let lc = chars_of(l);
                let ts = trim_start_chars(lc.as_slice());
                if starts_with_exec(ts.as_slice(), chars_of("PS ").as_slice()) {
                    return ScanStep::Continue;
                }
                let te = trim_end_chars(lc.as_slice());
                let sc = chars_of(sentinel);
                if ends_with_exec(te.as_slice(), sc.as_slice()) {
                    let before = slice_chars(te.as_slice(), 0, te.len() - sc.len());
                    assert(before@ =~= te@.take(te@.len() - sc@.len()));
                    if before.len() > 0 {
                        let ghost old_out = string_views(self.stdout@);
                        self.stdout.push(string_from_chars(before.as_slice()));
                        assert(string_views(self.stdout@) =~= old_out.push(before@));
                    }
                    self.phase = ScanPhase::Metadata;
                    return ScanStep::Continue;
                }
                let t = trim_chars(lc.as_slice());
                if starts_with_exec(t.as_slice(), chars_of("EXIT_CODE_").as_slice()) || starts_with_exec(
                    t.as_slice(),
                    chars_of("__CWD__").as_slice(),
                ) {
                    return ScanStep::Continue;
                }
                let ghost old_out = string_views(self.stdout@);
                self.stdout.push(l.to_string());
                assert(string_views(self.stdout@) =~= old_out.push(l@));
                ScanStep::Continue
            },
            ScanPhase::Metadata => {
                let lc = match line {
                    Some(l) => chars_of(l),
                    None => Vec::new(),
                };
                let ts = trim_start_chars(lc.as_slice());
                let clean = trim_chars(lc.as_slice());
                if starts_with_exec(ts.as_slice(), chars_of("PS ").as_slice()) || clean.len() == 0 {
                    return ScanStep::Continue;
                }
                proof {
                    reveal_strlit("__CWD__");
                    reveal_strlit("EXIT_CODE_");
                }
                if starts_with_exec(clean.as_slice(), chars_of("__CWD__").as_slice()) {
                    let rest = slice_chars(clean.as_slice(), 7, clean.len());
                    assert(rest@ =~= clean@.skip(7));
                    self.cwd = string_from_chars(rest.as_slice());
                    return ScanStep::Continue;
                }
                if starts_with_exec(clean.as_slice(), chars_of("EXIT_CODE_").as_slice()) {
                    let rest = slice_chars(clean.as_slice(), 10, clean.len());
                    assert(rest@ =~= clean@.skip(10));
                    let code = match parse_i32(rest.as_slice()) {
                        Some(c) => c,
                        None => 0,
                    };
                    self.exit_code = code;
                    self.phase = ScanPhase::Done;
                    return ScanStep::Finished;
                }
                ScanStep::Continue
            },
            ScanPhase::Done => ScanStep::Finished,
        }
    }

    /// Takes one line of standard error (`None` when the stream ended,
    /// which changes nothing).
    pub fn on_stderr_line(&mut self, line: Option<&str>)
        ensures
            final(self)@ == (match line {
                Some(l) => ScanView { stderr: old(self)@.stderr.push(l@), ..old(self)@ },
                None => old(self)@,
            }),
    {
        match line {
            Some(l) => {
                let ghost old_err = string_views(self.stderr@);
                self.stderr.push(l.to_string());
                assert(string_views(self.stderr@) =~= old_err.push(l@));
            },
            None => {},
        }
    }
}

/// `s` without leading whitespace.
fn trim_start_chars(s: &[char]) -> (r: Vec<char>)
    ensures
        r@ == trim_start(s@),
{
    let n = s.len();
    let mut i: usize = 0;
    assert(s@.skip(0) =~= s@);
    while i < n && is_ws_exec(s[i])
        invariant
            n == s@.len(),
            i <= n,
            trim_start(s@) == trim_start(s@.skip(i as int)),
        decreases n - i,
    {
        assert(s@.skip(i as int).skip(1) =~= s@.skip(i + 1));
        i += 1;
    }
    let r = slice_chars(s, i, n);
    assert(r@ =~= s@.skip(i as int));
    r
}

/// `s` without trailing whitespace.
fn trim_end_chars(s: &[char]) -> (r: Vec<char>)
    ensures
        r@ == trim_end(s@),
{
    let mut j: usize = s.len();
    assert(s@.take(j as int) =~= s@);
    while j > 0 && is_ws_exec(s[j - 1])
        invariant
            j <= s@.len(),
            trim_end(s@) == trim_end(s@.take(j as int)),
        decreases j,
    {
        assert(s@.take(j as int).drop_last() =~= s@.take(j - 1));
        j -= 1;
    }
    let r = slice_chars(s, 0, j);
    assert(r@ =~= s@.take(j as int));
    r
}

/// The message when standard output ends before the sentinel.
pub open spec fn sentinel_missing_text(sentinel: Seq<char>) -> Seq<char> {
    "Sentinel not found: "@ + sentinel
}

pub fn sentinel_missing_message(sentinel: &str) -> (r: String)
    ensures
        r@ == sentinel_missing_text(sentinel@),
{
    let mut out: Vec<char> = Vec::new();
    push_str(&mut out, "Sentinel not found: ");
    push_str(&mut out, sentinel);
    string_from_chars(out.as_slice())
}

/// The collected output of each stream, its lines put back together.
pub fn scan_output(scan: &ShellScan) -> (r: (String, String))
    ensures
        r.0@ == join(scan@.stdout, Seq::<char>::empty()),
        r.1@ == join(scan@.stderr, Seq::<char>::empty()),
{
    (concat_lines(&scan.stdout), concat_lines(&scan.stderr))
}

fn concat_lines(v: &Vec<String>) -> (r: String)
    ensures
        r@ == join(string_views(v@), Seq::<char>::empty()),
{
    let parts = crate::edit::lines_from_strings(v.as_slice());
    let empty: [char; 0] = [];
    assert(empty@ =~= Seq::<char>::empty());
    let j = join_chars(&parts, &empty);
    string_from_chars(j.as_slice())
}

} // verus!
