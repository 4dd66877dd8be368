//! Reading the output of a background process: which streams are read,
//! how a page continues, and what the reply says.
use vstd::prelude::*;
use crate::text::{lower_seq, chars_of, contains_lit, contains_seq, dec, join, join_chars, push_chars, push_dec, push_str, seqs_of, str_eq, string_from_chars};
use crate::edit::string_views;

verus! {

/// Which output streams of a process are read.
#[derive(Debug, Clone, Copy, PartialEq, Eq, Structural)]
pub enum OutputSelection {
    Stdout,
    Stderr,
    Both,
}

pub open spec fn selection_of(v: Seq<char>) -> Option<OutputSelection> {
    if v == "stdout"@ {
        Some(OutputSelection::Stdout)
    } else if v == "stderr"@ {
        Some(OutputSelection::Stderr)
    } else if v == "both"@ {
        Some(OutputSelection::Both)
    } else {
        None
    }
}

pub open spec fn selection_name(s: OutputSelection) -> Seq<char> {
    match s {
        OutputSelection::Stdout => "stdout"@,
        OutputSelection::Stderr => "stderr"@,
        OutputSelection::Both => "both"@,
    }
}

pub open spec fn selection_streams(s: OutputSelection) -> Seq<Seq<char>> {
    match s {
        OutputSelection::Stdout => seq!["stdout"@],
        OutputSelection::Stderr => seq!["stderr"@],
        OutputSelection::Both => seq!["stdout"@, "stderr"@],
    }
}

impl OutputSelection {
    /// `stdout`, `stderr` or `both`.
    pub fn parse(value: &str) -> (r: Option<OutputSelection>)
        ensures
            r == selection_of(value@),
    {
        if str_eq(value, "stdout") {
            Some(OutputSelection::Stdout)
        } else if str_eq(value, "stderr") {
            Some(OutputSelection::Stderr)
        } else if str_eq(value, "both") {
            Some(OutputSelection::Both)
        } else {
            None
        }
    }

    pub fn as_str(self) -> (r: &'static str)
        ensures
            r@ == selection_name(self),
    {
        match self {
            OutputSelection::Stdout => "stdout",
            OutputSelection::Stderr => "stderr",
            OutputSelection::Both => "both",
        }
    }

    /// The streams read, in order.
    pub fn stream_names(self) -> (r: Vec<&'static str>)
        ensures
            r@.len() == selection_streams(self).len(),
            forall|i: int| 0 <= i < r@.len() ==> (#[trigger] r@[i])@ == selection_streams(self)[i],
    {
        let mut v: Vec<&'static str> = Vec::new();
        match self {
            OutputSelection::Stdout => v.push("stdout"),
            OutputSelection::Stderr => v.push("stderr"),
            OutputSelection::Both => {
                v.push("stdout");
                v.push("stderr");
            },
        }
        v
    }
}

/// What `str::to_uppercase` gives for a string (full Unicode case
/// mapping).
pub uninterp spec fn uppercase_of(s: Seq<char>) -> Seq<char>;

/// What `str::to_lowercase` gives for a string (full Unicode case
/// mapping).
pub uninterp spec fn lowercase_of(s: Seq<char>) -> Seq<char>;

/// `str::to_uppercase`; its result is named, not stated.
#[verifier::external_body]
fn to_uppercase(s: &str) -> (r: String)
    ensures
        r@ == uppercase_of(s@),
{
    s.to_uppercase()
}

/// `str::to_lowercase`; its result is named. Of an all-ASCII string it
/// states what the Unicode lower-case mapping gives there: `A`..`Z` become
/// `a`..`z` and every other ASCII character stays.
#[verifier::external_body]
pub(crate) fn to_lowercase(s: &str) -> (r: String)
    ensures
        r@ == lowercase_of(s@),
        vstd::utf8::is_ascii_chars(s@) ==> r@ == lower_seq(s@),
{
    s.to_lowercase()
}

/// `[STREAM]` followed by the lines read, or `(no output)`.
pub open spec fn stream_section(stream: Seq<char>, lines: Seq<Seq<char>>) -> Seq<char> {
    seq!['['] + uppercase_of(stream) + "]\n"@ + if lines.len() == 0 {
        "(no output)"@
    } else {
        join(lines, seq!['\n'])
    }
}

/// The section of the reply for one stream.
pub fn format_stream_section(stream: &str, lines: &[String]) -> (r: String)
    ensures
        r@ == stream_section(stream@, string_views(lines@)),
{
    let mut out: Vec<char> = Vec::new();
    out.push('[');
    let up = to_uppercase(stream);
    push_str(&mut out, up.as_str());
    push_str(&mut out, "]\n");
    if lines.len() == 0 {
        push_str(&mut out, "(no output)");
    } else {
        let parts = crate::edit::lines_from_strings(lines);
        let nl = ['\n'];
        assert(nl@ =~= seq!['\n']);
        let j = join_chars(&parts, &nl);
        push_chars(&mut out, j.as_slice());
    }
    assert(out@ =~= stream_section(stream@, string_views(lines@)));
    string_from_chars(out.as_slice())
}

/// The title and guidance of a failed read of a process stream, chosen by
/// what the error says (compared in lower case).
pub open spec fn read_error_report(process_id: Seq<char>, stream: Seq<char>, error: Seq<char>) -> (Seq<char>, Seq<Seq<char>>) {
    let e = lowercase_of(error);
    if contains_seq(e, "not found"@) || contains_seq(e, "no such file"@) {
        ("No "@ + stream + " output file found"@, seq![
            "The process may not have started yet"@,
            "Use workspace__waitForProcess(\""@ + process_id + "\", 0) to verify process status"@,
            "Wait a moment and try again - the process may not have generated output"@,
            "Check if the process ran with output redirected elsewhere"@,
        ])
    } else if contains_seq(e, "permission"@) || contains_seq(e, "denied"@) {
        ("Permission denied reading output"@, seq![
            "Cannot read "@ + stream + " stream for process \""@ + process_id + seq!['"'],
            "Check process permissions and ownership"@,
            "Try running as elevated user if needed"@,
            "Use workspace__listProcesses to view process details"@,
        ])
    } else if contains_seq(e, "too large"@) || contains_seq(e, "too big"@) {
        ("Output file too large"@, seq![
            "Maximum 100 lines per request"@,
            "Reduce 'lines' parameter to read less data"@,
            "Use mode=\"head\" for beginning or mode=\"tail\" for end"@,
            "Use output_paths with workspace__readFile/search for deeper inspection"@,
        ])
    } else if contains_seq(e, "invalid"@) || contains_seq(e, "utf"@) {
        ("Output contains non-UTF-8 data"@, seq![
            "The process output contains binary or invalid UTF-8 data"@,
            "Try reading the other stream if it contains text diagnostics"@,
            "Check if the process generated text output or binary data"@,
        ])
    } else {
        ("Failed to read process output"@, seq![
            "Verify process "@ + process_id + ": use workspace__listProcesses()"@,
            "Check stream=\""@ + stream + "\" is correct (stdout, stderr, or both)"@,
            "Ensure the process has generated output"@,
            "Check file permissions and disk space"@,
        ])
    }
}

fn text3(a: &str, b: &str, c: &str) -> (r: String)
    ensures
        r@ == a@ + b@ + c@,
{
    let mut m: Vec<char> = Vec::new();
    push_str(&mut m, a);
    push_str(&mut m, b);
    push_str(&mut m, c);
    assert(m@ =~= a@ + b@ + c@);
    string_from_chars(m.as_slice())
}

/// The title and guidance of a failed stream read (see
/// `read_error_report`).
pub fn build_read_error(process_id: &str, stream_label: &str, error: &str) -> (r: (String, Vec<String>))
    ensures
        r.0@ == read_error_report(process_id@, stream_label@, error@).0,
        string_views(r.1@) == read_error_report(process_id@, stream_label@, error@).1,
{
    let lower = to_lowercase(error);
    let e = chars_of(lower.as_str());
    let mut g: Vec<String> = Vec::new();
    let title: String;
    if contains_lit(e.as_slice(), "not found") || contains_lit(e.as_slice(), "no such file") {
        title = text3("No ", stream_label, " output file found");
        g.push("The process may not have started yet".to_string());
        g.push(text3("Use workspace__waitForProcess(\"", process_id, "\", 0) to verify process status"));
        g.push("Wait a moment and try again - the process may not have generated output".to_string());
        g.push("Check if the process ran with output redirected elsewhere".to_string());
    } else if contains_lit(e.as_slice(), "permission") || contains_lit(e.as_slice(), "denied") {
        title = "Permission denied reading output".to_string();
        let mut m: Vec<char> = Vec::new();
        push_str(&mut m, "Cannot read ");
        push_str(&mut m, stream_label);
        push_str(&mut m, " stream for process \"");
        push_str(&mut m, process_id);
        m.push('"');
        assert(m@ =~= "Cannot read "@ + stream_label@ + " stream for process \""@ + process_id@ + seq!['"']);
        g.push(string_from_chars(m.as_slice()));
        g.push("Check process permissions and ownership".to_string());
        g.push("Try running as elevated user if needed".to_string());
        g.push("Use workspace__listProcesses to view process details".to_string());
    } else if contains_lit(e.as_slice(), "too large") || contains_lit(e.as_slice(), "too big") {
        title = "Output file too large".to_string();
        g.push("Maximum 100 lines per request".to_string());
        g.push("Reduce 'lines' parameter to read less data".to_string());
        g.push("Use mode=\"head\" for beginning or mode=\"tail\" for end".to_string());
        g.push("Use output_paths with workspace__readFile/search for deeper inspection".to_string());
    } else if contains_lit(e.as_slice(), "invalid") || contains_lit(e.as_slice(), "utf") {
        title = "Output contains non-UTF-8 data".to_string();
        g.push("The process output contains binary or invalid UTF-8 data".to_string());
        g.push("Try reading the other stream if it contains text diagnostics".to_string());
        g.push("Check if the process generated text output or binary data".to_string());
    } else {
        title = "Failed to read process output".to_string();
        g.push(text3("Verify process ", process_id, ": use workspace__listProcesses()"));
        g.push(text3("Check stream=\"", stream_label, "\" is correct (stdout, stderr, or both)"));
        g.push("Ensure the process has generated output".to_string());
        g.push("Check file permissions and disk space".to_string());
    }
    assert(string_views(g@) =~= read_error_report(process_id@, stream_label@, error@).1);
    (title, g)
}

/// Whether a failed stream read means there is no output yet (the file is
/// missing), which reads as an empty stream.
pub open spec fn read_error_means_empty(error: Seq<char>) -> bool {
    contains_seq(lowercase_of(error), "not found"@) || contains_seq(lowercase_of(error), "no such file"@)
}

/// Whether a failed read of a stream that may not exist yet reads as empty.
pub fn stream_missing_reads_as_empty(error: &str) -> (r: bool)
    ensures
        r == read_error_means_empty(error@),
{
    let lower = to_lowercase(error);
    let e = chars_of(lower.as_str());
    contains_lit(e.as_slice(), "not found") || contains_lit(e.as_slice(), "no such file")
}

// ---------------------------------------------------------------------------
// Requests and pages
// ---------------------------------------------------------------------------

/// A validated request to read process output.
pub struct ReadOutputRequest {
    pub selection: OutputSelection,
    pub head: bool,
    pub lines: usize,
    pub offset: Option<usize>,
}

/// Why a request to read process output was refused.
pub enum ReadOutputRefusal {
    MissingStream,
    InvalidStream(String),
    InvalidMode(String),
    ZeroLines,
    OffsetTooLarge,
    OffsetNotANumber,
    OffsetWithoutHead,
}

/// The `offset` argument as the request gives it: absent or null, a
/// non-negative integer, or something else.
pub enum OffsetArg {
    Absent,
    Number(u64),
    Invalid,
}

pub open spec fn refusal_view(r: ReadOutputRefusal) -> (nat, Seq<char>) {
    match r {
        ReadOutputRefusal::MissingStream => (0, Seq::empty()),
        ReadOutputRefusal::InvalidStream(s) => (1, s@),
        ReadOutputRefusal::InvalidMode(s) => (2, s@),
        ReadOutputRefusal::ZeroLines => (3, Seq::empty()),
        ReadOutputRefusal::OffsetTooLarge => (4, Seq::empty()),
        ReadOutputRefusal::OffsetNotANumber => (5, Seq::empty()),
        ReadOutputRefusal::OffsetWithoutHead => (6, Seq::empty()),
    }
}

/// The number of lines read: 20 unless given, at most 100; a count that
/// does not fit the platform reads as the default.
pub open spec fn lines_requested(lines: Option<u64>) -> nat {
    let l: nat = match lines {
        Some(v) => if v <= usize::MAX { v as nat } else { 20 },
        None => 20,
    };
    if l <= 100 { l } else { 100 }
}

/// What a request to read process output is: refused for a missing or
/// unknown stream, an unknown mode (tail by default), zero lines, a bad
/// offset, or an offset outside head mode; accepted otherwise.
pub open spec fn read_output_outcome(stream: Option<Seq<char>>, mode: Option<Seq<char>>, lines: Option<u64>, offset: OffsetArg) -> Result<(OutputSelection, bool, nat, Option<nat>), (nat, Seq<char>)> {
    match stream {
        None => Err((0, Seq::empty())),
        Some(s) => match selection_of(s) {
            None => Err((1, s)),
            Some(sel) => {
                let m = match mode {
                    Some(m) => m,
                    None => "tail"@,
                };
                if !(m == "tail"@ || m == "head"@) {
                    Err((2, m))
                } else if lines_requested(lines) == 0 {
                    Err((3, Seq::empty()))
                } else {
                    let off: Result<Option<nat>, (nat, Seq<char>)> = match offset {
                        OffsetArg::Absent => Ok(None),
                        OffsetArg::Number(v) => if v <= usize::MAX { Ok(Some(v as nat)) } else { Err((4, Seq::empty())) },
                        OffsetArg::Invalid => Err((5, Seq::empty())),
                    };
                    match off {
                        Err(e) => Err(e),
                        Ok(o) => if o is Some && m != "head"@ {
                            Err((6, Seq::empty()))
                        } else {
                            Ok((sel, m == "head"@, lines_requested(lines), o))
                        },
                    }
                }
            },
        },
    }
}

/// Validate a request to read process output (see `read_output_outcome`).
pub fn parse_read_output_request(stream: Option<&str>, mode: Option<&str>, lines: Option<u64>, offset: OffsetArg) -> (r: Result<ReadOutputRequest, ReadOutputRefusal>)
    ensures
        match r {
            Ok(q) => read_output_outcome(crate::utils::opt_str_view(stream), crate::utils::opt_str_view(mode), lines, offset)
                == Ok::<(OutputSelection, bool, nat, Option<nat>), (nat, Seq<char>)>((q.selection, q.head, q.lines as nat, match q.offset {
                    Some(o) => Some(o as nat),
                    None => None,
                })),
            Err(e) => read_output_outcome(crate::utils::opt_str_view(stream), crate::utils::opt_str_view(mode), lines, offset)
                == Err::<(OutputSelection, bool, nat, Option<nat>), (nat, Seq<char>)>(refusal_view(e)),
        },
{
    let s = match stream {
        None => {
            return Err(ReadOutputRefusal::MissingStream);
        },
        Some(s) => s,
    };
    let selection = match OutputSelection::parse(s) {
        None => {
            return Err(ReadOutputRefusal::InvalidStream(string_from_chars(chars_of(s).as_slice())));
        },
        Some(sel) => sel,
    };
    let m = match mode {
        Some(m) => m,
        None => "tail",
    };
    let is_tail = str_eq(m, "tail");
    let is_head = str_eq(m, "head");
    if !(is_tail || is_head) {
        return Err(ReadOutputRefusal::InvalidMode(string_from_chars(chars_of(m).as_slice())));
    }
    let l: usize = match lines {
        Some(v) => if v <= usize::MAX as u64 { v as usize } else { 20 },
        None => 20,
    };
    let n = if l <= 100 { l } else { 100 };
    if n == 0 {
        return Err(ReadOutputRefusal::ZeroLines);
    }
    let off: Option<usize> = match offset {
        OffsetArg::Absent => None,
        OffsetArg::Number(v) => {
            if v <= usize::MAX as u64 {
                Some(v as usize)
            } else {
                return Err(ReadOutputRefusal::OffsetTooLarge);
            }
        },
        OffsetArg::Invalid => {
            return Err(ReadOutputRefusal::OffsetNotANumber);
        },
    };
    if off.is_some() && !is_head {
        return Err(ReadOutputRefusal::OffsetWithoutHead);
    }
    Ok(ReadOutputRequest { selection, head: is_head, lines: n, offset: off })
}

/// Where the next page of a stream starts: after the page, when that is
/// still inside the stream.
pub open spec fn page_next(offset: nat, lines: nat, total: nat) -> Option<nat> {
    if offset + lines < total { Some(offset + lines) } else { None }
}

/// Where the next page of a stream starts (see `page_next`); offsets
/// saturate at the largest `usize`.
pub fn next_page_offset(offset: usize, lines: usize, total_lines: usize) -> (r: Option<usize>)
    ensures
        offset + lines <= usize::MAX ==> match r {
            Some(v) => page_next(offset as nat, lines as nat, total_lines as nat) == Some(v as nat),
            None => page_next(offset as nat, lines as nat, total_lines as nat) is None,
        },
        offset + lines > usize::MAX ==> r is None,
{
    let next = offset.saturating_add(lines);
    if next < total_lines {
        Some(next)
    } else {
        None
    }
}

/// The note ending a paged read.
pub open spec fn pagination_note(offset: nat, next: Option<nat>, running: bool) -> Seq<char> {
    match next {
        Some(n) => "\n\nPagination: page starts at offset "@ + dec(offset) + ". Read the next page with offset="@ + dec(n) + seq!['.'],
        None => if running {
            "\n\nPagination: no more output is available now at offset "@ + dec(offset) + ". The process is still running; retry with offset="@ + dec(offset) + " after it produces more output."@
        } else {
            "\n\nPagination: this is the final page."@
        },
    }
}

/// The note ending a paged read (see `pagination_note`).
pub fn format_pagination_note(offset: usize, next_offset: Option<usize>, running: bool) -> (r: String)
    ensures
        r@ == pagination_note(offset as nat, match next_offset {
            Some(n) => Some(n as nat),
            None => None,
        }, running),
{
    let mut m: Vec<char> = Vec::new();
    match next_offset {
        Some(n) => {
            push_str(&mut m, "\n\nPagination: page starts at offset ");
            push_dec(&mut m, offset as u64);
            push_str(&mut m, ". Read the next page with offset=");
            push_dec(&mut m, n as u64);
            m.push('.');
        },
        None => {
            if running {
                push_str(&mut m, "\n\nPagination: no more output is available now at offset ");
                push_dec(&mut m, offset as u64);
                push_str(&mut m, ". The process is still running; retry with offset=");
                push_dec(&mut m, offset as u64);
                push_str(&mut m, " after it produces more output.");
            } else {
                push_str(&mut m, "\n\nPagination: this is the final page.");
            }
        },
    }
    assert(m@ =~= pagination_note(offset as nat, match next_offset {
        Some(n) => Some(n as nat),
        None => None,
    }, running));
    string_from_chars(m.as_slice())
}

/// Where the next page of a read of several streams starts: the furthest
/// next offset of any stream read so far.
pub fn merge_next_offset(acc: Option<usize>, stream_next: Option<usize>) -> (r: Option<usize>)
    ensures
        match stream_next {
            None => r == acc,
            Some(n) => r == Some(match acc {
                Some(a) => if a >= n { a } else { n },
                None => n,
            }),
        },
{
    match stream_next {
        None => acc,
        Some(n) => {
            let a = match acc {
                Some(a) => a,
                None => 0,
            };
            Some(if a >= n { a } else { n })
        },
    }
}

/// One line per stream read: `- stream: path`.
pub open spec fn output_path_lines(streams: Seq<Seq<char>>, paths: Seq<Seq<char>>) -> Seq<Seq<char>> {
    Seq::new(streams.len(), |i: int| "- "@ + streams[i] + ": "@ + paths[i])
}

/// The reply to a read of process output: what was read and from where,
/// one section per stream, and for a paged read the pagination note.
pub open spec fn read_output_text(
    process_id: Seq<char>,
    selection: OutputSelection,
    head: bool,
    status: Seq<char>,
    paths: Seq<Seq<char>>,
    sections: Seq<Seq<char>>,
    page: Option<(nat, Option<nat>)>,
    running: bool,
) -> Seq<char> {
    "Read output from process "@ + process_id + " (stream: "@ + selection_name(selection) + ", mode: "@ + (if head {
        "head"@
    } else {
        "tail"@
    }) + ", status: "@ + status + ")\n\nInternal output files (absolute paths, not workspace-relative):\n"@ + join(
        output_path_lines(selection_streams(selection), paths),
        seq!['\n'],
    ) + "\n\n"@ + join(sections, "\n\n"@) + match page {
        Some((offset, next)) => pagination_note(offset, next, running),
        None => Seq::<char>::empty(),
    }
}

/// The reply to a read of process output (see `read_output_text`); `paths`
/// and `sections` hold one entry per stream of the selection, in order.
pub fn format_read_output_text(
    process_id: &str,
    selection: OutputSelection,
    head: bool,
    status: &str,
    paths: &[String],
    sections: &[String],
    page: Option<(usize, Option<usize>)>,
    running: bool,
) -> (r: String)
    requires
        paths@.len() == selection_streams(selection).len(),
    ensures
        r@ == read_output_text(
            process_id@,
            selection,
            head,
            status@,
            string_views(paths@),
            string_views(sections@),
            match page {
                Some((o, n)) => Some((o as nat, match n {
                    Some(v) => Some(v as nat),
                    None => None,
                })),
                None => None,
            },
            running,
        ),
{
    let mut m: Vec<char> = Vec::new();
    push_str(&mut m, "Read output from process ");
    push_str(&mut m, process_id);
    push_str(&mut m, " (stream: ");
    push_str(&mut m, selection.as_str());
    push_str(&mut m, ", mode: ");
    push_str(&mut m, if head { "head" } else { "tail" });
    push_str(&mut m, ", status: ");
    push_str(&mut m, status);
    push_str(&mut m, ")\n\nInternal output files (absolute paths, not workspace-relative):\n");
    let names = selection.stream_names();
    let mut lines: Vec<Vec<char>> = Vec::new();
    let mut i: usize = 0;
    while i < names.len()
        invariant
            names@.len() == selection_streams(selection).len(),
            forall|k: int| 0 <= k < names@.len() ==> (#[trigger] names@[k])@ == selection_streams(selection)[k],
            paths@.len() == names@.len(),
            i <= names@.len(),
            seqs_of(lines@) == output_path_lines(selection_streams(selection), string_views(paths@)).take(i as int),
        decreases names@.len() - i,
    {
        let mut l: Vec<char> = Vec::new();
        push_str(&mut l, "- ");
        push_str(&mut l, names[i]);
        push_str(&mut l, ": ");
        push_str(&mut l, paths[i].as_str());
        let ghost before = seqs_of(lines@);
        let ghost want = output_path_lines(selection_streams(selection), string_views(paths@));
        assert(l@ == want[i as int]);
        lines.push(l);
        assert(seqs_of(lines@) =~= before.push(want[i as int]));
        assert(want.take(i + 1) =~= want.take(i as int).push(want[i as int]));
        i += 1;
    }
    let ghost want = output_path_lines(selection_streams(selection), string_views(paths@));
    assert(want.take(names@.len() as int) =~= want);
    let nl = ['\n'];
    assert(nl@ =~= seq!['\n']);
    let joined = join_chars(&lines, &nl);
    push_chars(&mut m, joined.as_slice());
    push_str(&mut m, "\n\n");
    let parts = crate::edit::lines_from_strings(sections);
    let gap = chars_of("\n\n");
    let body = join_chars(&parts, gap.as_slice());
    push_chars(&mut m, body.as_slice());
    match page {
        Some((offset, next)) => {
            let note = format_pagination_note(offset, next, running);
            push_str(&mut m, note.as_str());
        },
        None => {},
    }
    let ghost page_view: Option<(nat, Option<nat>)> = match page {
        Some((o, n)) => Some((o as nat, match n {
            Some(v) => Some(v as nat),
            None => None,
        })),
        None => None,
    };
    assert(m@ =~= read_output_text(
        process_id@,
        selection,
        head,
        status@,
        string_views(paths@),
        string_views(sections@),
        page_view,
        running,
    ));
    string_from_chars(m.as_slice())
}

/// The suggested next steps after reading a process's output: only while
/// it runs.
pub open spec fn output_next_actions(process_id: Seq<char>, running: bool) -> Seq<Seq<char>> {
    if running {
        seq![
            "Use workspace__waitForProcess('"@ + process_id + "', 0) to check whether it has finished"@,
            "Use workspace__stopProcess('"@ + process_id + "') only if the running process is stuck"@,
        ]
    } else {
        Seq::empty()
    }
}

/// The suggested next steps (see `output_next_actions`).
pub fn read_output_next_actions(process_id: &str, running: bool) -> (r: Vec<String>)
    ensures
        string_views(r@) == output_next_actions(process_id@, running),
{
    let mut v: Vec<String> = Vec::new();
    if running {
        v.push(text3("Use workspace__waitForProcess('", process_id, "', 0) to check whether it has finished"));
        v.push(text3("Use workspace__stopProcess('", process_id, "') only if the running process is stuck"));
    }
    assert(string_views(v@) =~= output_next_actions(process_id@, running));
    v
}

} // verus!
