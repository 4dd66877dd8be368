//! Background processes of a session: which entries a listing shows and
//! in what order, the text of the listing, and the decisions and messages
//! of waiting for and stopping a process. A process is seen through plain
//! values: its identity, its status label and the status classes the
//! rules ask about.
use vstd::prelude::*;
use crate::text::{chars_of, dec, join, join_chars, push_chars, push_dec, push_str, seqs_of, str_eq, string_from_chars};
use crate::edit::string_views;
use crate::listing::{chars_le, chars_le_exec};

verus! {

/// One process as a listing shows it.
pub struct ProcessInfo {
    pub id: String,
    pub name: String,
    pub command: String,
    /// The status label (`running`, `finished`, `failed`, ...).
    pub status: String,
    pub pid: Option<u64>,
    pub exit_code: Option<i64>,
    /// The start time in RFC 3339 form.
    pub started_at: String,
    /// The process is starting or running.
    pub active: bool,
    /// The process finished or failed.
    pub ended: bool,
}

// ---------------------------------------------------------------------------
// Which processes are listed, and in what order
// ---------------------------------------------------------------------------

/// Whether a status filter (`running`, `finished`, anything else meaning
/// all) admits a process.
pub open spec fn admitted(filter: Seq<char>, p: ProcessInfo) -> bool {
    if filter == "running"@ {
        p.active
    } else if filter == "finished"@ {
        p.ended
    } else {
        true
    }
}

pub fn status_filter_admits(filter: &str, p: &ProcessInfo) -> (r: bool)
    ensures
        r == admitted(filter@, *p),
{
    if str_eq(filter, "running") {
        p.active
    } else if str_eq(filter, "finished") {
        p.ended
    } else {
        true
    }
}

/// `a` is listed no later than `b`: later start times come first.
pub open spec fn listed_no_later(a: ProcessInfo, b: ProcessInfo) -> bool {
    chars_le(b.started_at@, a.started_at@)
}

/// `x` placed into `s` behind every process from the end that is listed
/// no later than it.
pub open spec fn insert_by_start(s: Seq<ProcessInfo>, x: ProcessInfo) -> Seq<ProcessInfo>
    decreases s.len(),
{
    if s.len() == 0 {
        seq![x]
    } else if listed_no_later(s.last(), x) {
        s.push(x)
    } else {
        insert_by_start(s.drop_last(), x).push(s.last())
    }
}

/// The processes newest first, in the order of a stable sort.
pub open spec fn by_start_desc(ps: Seq<ProcessInfo>) -> Seq<ProcessInfo>
    decreases ps.len(),
{
    if ps.len() == 0 {
        Seq::empty()
    } else {
        insert_by_start(by_start_desc(ps.drop_last()), ps.last())
    }
}

proof fn lemma_insert_by_start_at(s: Seq<ProcessInfo>, x: ProcessInfo, p: int)
    requires
        0 <= p <= s.len(),
        p == 0 || listed_no_later(s[p - 1], x),
        forall|q: int| p <= q < s.len() ==> !listed_no_later(#[trigger] s[q], x),
    ensures
        insert_by_start(s, x) == s.insert(p, x),
    decreases s.len(),
{
    if s.len() == 0 {
        assert(s.insert(p, x) =~= seq![x]);
    } else if p == s.len() {
        assert(s.insert(p, x) =~= s.push(x));
    } else {
        assert(!listed_no_later(s[s.len() - 1], x));
        let t = s.drop_last();
        assert forall|q: int| p <= q < t.len() implies !listed_no_later(#[trigger] t[q], x) by {
            assert(t[q] == s[q]);
        }
        lemma_insert_by_start_at(t, x, p);
        assert(t.insert(p, x).push(s.last()) =~= s.insert(p, x));
    }
}

/// Each process is listed no later than every one after it.
pub open spec fn newest_first(s: Seq<ProcessInfo>) -> bool {
    forall|i: int, j: int| 0 <= i < j < s.len() ==> listed_no_later(#[trigger] s[i], #[trigger] s[j])
}

proof fn lemma_listed_total(a: ProcessInfo, b: ProcessInfo)
    ensures
        listed_no_later(a, b) || listed_no_later(b, a),
{
    crate::listing::lemma_chars_le_total(a.started_at@, b.started_at@);
}

proof fn lemma_listed_trans(a: ProcessInfo, b: ProcessInfo, c: ProcessInfo)
    requires
        listed_no_later(a, b),
        listed_no_later(b, c),
    ensures
        listed_no_later(a, c),
{
    crate::listing::lemma_chars_le_trans(c.started_at@, b.started_at@, a.started_at@);
}

proof fn lemma_insert_by_start_keeps(s: Seq<ProcessInfo>, x: ProcessInfo)
    ensures
        insert_by_start(s, x).to_multiset() == s.to_multiset().insert(x),
        insert_by_start(s, x).len() == s.len() + 1,
        forall|y: ProcessInfo| #[trigger] insert_by_start(s, x).contains(y) ==> y == x || s.contains(y),
    decreases s.len(),
{
    broadcast use vstd::seq_lib::to_multiset_build, vstd::multiset::group_multiset_axioms;

    if s.len() == 0 {
        assert(Seq::<ProcessInfo>::empty().push(x) =~= seq![x]);
        assert(s =~= Seq::<ProcessInfo>::empty());
        assert forall|y: ProcessInfo| #[trigger] insert_by_start(s, x).contains(y) implies y == x || s.contains(y) by {
            let w = choose|w: int| 0 <= w < insert_by_start(s, x).len() && insert_by_start(s, x)[w] == y;
        }
    } else if listed_no_later(s.last(), x) {
        assert forall|y: ProcessInfo| #[trigger] insert_by_start(s, x).contains(y) implies y == x || s.contains(y) by {
            let w = choose|w: int| 0 <= w < insert_by_start(s, x).len() && insert_by_start(s, x)[w] == y;
            if w < s.len() {
                assert(s[w] == y);
            }
        }
    } else {
        let t = s.drop_last();
        lemma_insert_by_start_keeps(t, x);
        assert(t.push(s.last()) =~= s);
        assert(insert_by_start(s, x).to_multiset() =~= s.to_multiset().insert(x));
        assert forall|y: ProcessInfo| #[trigger] insert_by_start(s, x).contains(y) implies y == x || s.contains(y) by {
            let r = insert_by_start(t, x);
            let w = choose|w: int| 0 <= w < insert_by_start(s, x).len() && insert_by_start(s, x)[w] == y;
            if w < r.len() {
                assert(r[w] == y);
                assert(r.contains(y));
                if y != x {
                    let v = choose|v: int| 0 <= v < t.len() && t[v] == y;
                    assert(s[v] == y);
                }
            } else {
                assert(y == s.last());
                assert(s[s.len() - 1] == y);
            }
        }
    }
}

proof fn lemma_insert_by_start_sorted(s: Seq<ProcessInfo>, x: ProcessInfo)
    requires
        newest_first(s),
    ensures
        newest_first(insert_by_start(s, x)),
    decreases s.len(),
{
    if s.len() == 0 {
    } else if listed_no_later(s.last(), x) {
        let r = s.push(x);
        assert forall|i: int, j: int| 0 <= i < j < r.len() implies listed_no_later(#[trigger] r[i], #[trigger] r[j]) by {
            if j == s.len() && i < s.len() - 1 {
                lemma_listed_trans(s[i], s.last(), x);
            }
        }
    } else {
        let t = s.drop_last();
        assert(newest_first(t)) by {
            assert forall|i: int, j: int| 0 <= i < j < t.len() implies listed_no_later(#[trigger] t[i], #[trigger] t[j]) by {
                assert(t[i] == s[i] && t[j] == s[j]);
            }
        }
        lemma_insert_by_start_sorted(t, x);
        lemma_insert_by_start_keeps(t, x);
        lemma_listed_total(s.last(), x);
        let r0 = insert_by_start(t, x);
        let r = r0.push(s.last());
        assert forall|i: int, j: int| 0 <= i < j < r.len() implies listed_no_later(#[trigger] r[i], #[trigger] r[j]) by {
            if j == r0.len() {
                let y = r0[i];
                assert(r0.contains(y));
                if y != x {
                    let v = choose|v: int| 0 <= v < t.len() && t[v] == y;
                    assert(s[v] == y);
                }
            } else {
                assert(r[i] == r0[i] && r[j] == r0[j]);
            }
        }
    }
}

/// Ordering processes newest first keeps every process and puts each one
/// no later than those after it.
pub proof fn lemma_by_start_desc(ps: Seq<ProcessInfo>)
    ensures
        by_start_desc(ps).to_multiset() == ps.to_multiset(),
        by_start_desc(ps).len() == ps.len(),
        newest_first(by_start_desc(ps)),
    decreases ps.len(),
{
    broadcast use vstd::seq_lib::to_multiset_build, vstd::multiset::group_multiset_axioms;

    if ps.len() == 0 {
        assert(ps =~= Seq::<ProcessInfo>::empty());
        assert(by_start_desc(ps) =~= Seq::<ProcessInfo>::empty());
        assert(by_start_desc(ps) == ps);
    } else {
        let t = ps.drop_last();
        lemma_by_start_desc(t);
        lemma_insert_by_start_keeps(by_start_desc(t), ps.last());
        lemma_insert_by_start_sorted(by_start_desc(t), ps.last());
        assert(t.push(ps.last()) =~= ps);
    }
}

/// Orders processes newest first (by start time, as text), keeping the
/// order of those that started at the same time.
pub fn sort_processes_newest_first(ps: &mut Vec<ProcessInfo>)
    ensures
        final(ps)@ == by_start_desc(old(ps)@),
{
    let mut src: Vec<ProcessInfo> = Vec::new();
    std::mem::swap(&mut src, ps);
    let ghost orig = src@;
    let mut out: Vec<ProcessInfo> = Vec::new();
    let ghost mut k: int = 0;
    proof {
        assert(orig.skip(0) =~= orig);
        assert(orig.take(0) =~= Seq::<ProcessInfo>::empty());
    }
    while src.len() > 0
        invariant
            0 <= k <= orig.len(),
            src@ == orig.skip(k),
            out@ == by_start_desc(orig.take(k)),
        decreases src.len(),
    {
        let x = src.remove(0);
        let xs = chars_of(x.started_at.as_str());
        let mut p = out.len();
        loop
            invariant
                p <= out.len(),
                xs@ == x.started_at@,
                forall|q: int| p <= q < out.len() ==> !listed_no_later(#[trigger] out@[q], x),
            ensures
                p <= out.len(),
                forall|q: int| p <= q < out.len() ==> !listed_no_later(#[trigger] out@[q], x),
                p == 0 || listed_no_later(out@[p - 1], x),
            decreases p,
        {
            if p == 0 {
                break;
            }
            let prev = chars_of(out[p - 1].started_at.as_str());
            if chars_le_exec(xs.as_slice(), prev.as_slice()) {
                break;
            }
            p -= 1;
        }
        proof {
            lemma_insert_by_start_at(out@, x, p as int);
            assert(orig.take(k + 1).drop_last() =~= orig.take(k));
            assert(orig.skip(k).drop_first() =~= orig.skip(k + 1));
        }
        out.insert(p, x);
        proof {
            k = k + 1;
        }
    }
    proof {
        assert(orig.take(k) =~= orig);
    }
    *ps = out;
}

// ---------------------------------------------------------------------------
// The listing text
// ---------------------------------------------------------------------------

/// One process in the listing: id, status, PID and exit code when known,
/// the name when it has one, and the full command.
pub open spec fn process_entry(p: ProcessInfo) -> Seq<char> {
    let pid = match p.pid {
        Some(n) => " (PID: "@ + dec(n as nat) + seq![')'],
        None => Seq::<char>::empty(),
    };
    let code = match p.exit_code {
        Some(c) => " [exit: "@ + signed_dec(c as int) + seq![']'],
        None => Seq::<char>::empty(),
    };
    let head = "• "@ + p.id@ + " ["@ + p.status@ + seq![']'] + pid + code;
    if p.name@.len() == 0 {
        head + "\n  Command: "@ + p.command@
    } else {
        head + "\n  Name: "@ + p.name@ + "\n  Command: "@ + p.command@
    }
}

/// A signed decimal number.
pub open spec fn signed_dec(c: int) -> Seq<char> {
    if c < 0 {
        seq!['-'] + dec((-c) as nat)
    } else {
        dec(c as nat)
    }
}

fn push_signed(out: &mut Vec<char>, c: i64)
    ensures
        final(out)@ == old(out)@ + signed_dec(c as int),
{
    if c < 0 {
        out.push('-');
        let m: u64 = if c == i64::MIN { 9223372036854775808u64 } else { (0 - c) as u64 };
        push_dec(out, m);
        assert(out@ =~= old(out)@ + signed_dec(c as int));
    } else {
        push_dec(out, c as u64);
    }
}

fn process_entry_text(p: &ProcessInfo) -> (r: Vec<char>)
    ensures
        r@ == process_entry(*p),
{
    let mut out: Vec<char> = Vec::new();
    push_str(&mut out, "• ");
    push_str(&mut out, p.id.as_str());
    push_str(&mut out, " [");
    push_str(&mut out, p.status.as_str());
    out.push(']');
    let ghost a = out@;
    match p.pid {
        Some(n) => {
            push_str(&mut out, " (PID: ");
            push_dec(&mut out, n);
            out.push(')');
        },
        None => {},
    }
    let ghost b = out@;
    match p.exit_code {
        Some(c) => {
            push_str(&mut out, " [exit: ");
            push_signed(&mut out, c);
            out.push(']');
        },
        None => {},
    }
    if p.name.as_str().is_empty() {
        push_str(&mut out, "\n  Command: ");
        push_str(&mut out, p.command.as_str());
    } else {
        push_str(&mut out, "\n  Name: ");
        push_str(&mut out, p.name.as_str());
        push_str(&mut out, "\n  Command: ");
        push_str(&mut out, p.command.as_str());
    }
    assert(out@ =~= process_entry(*p));
    out
}

/// The listing of the processes, or a notice that there are none.
pub open spec fn process_list(ps: Seq<ProcessInfo>) -> Seq<char> {
    if ps.len() == 0 {
        "No processes found in current session"@
    } else {
        join(Seq::new(ps.len(), |i: int| process_entry(ps[i])), "\n\n"@)
    }
}

/// The text of a listing: the counts, then each process.
pub open spec fn process_summary(ps: Seq<ProcessInfo>, running: nat, finished: nat) -> Seq<char> {
    "Found "@ + dec(ps.len()) + " processes ("@ + dec(running) + " running, "@ + dec(finished) + " finished)\n\n"@
        + process_list(ps)
}

/// The text of a listing of `ps` (already filtered and ordered), with
/// the session's counts of running and finished processes.
pub fn format_process_summary(ps: &[ProcessInfo], running: usize, finished: usize) -> (r: String)
    ensures
        r@ == process_summary(ps@, running as nat, finished as nat),
{
    let mut out: Vec<char> = Vec::new();
    push_str(&mut out, "Found ");
    push_dec(&mut out, ps.len() as u64);
    push_str(&mut out, " processes (");
    push_dec(&mut out, running as u64);
    push_str(&mut out, " running, ");
    push_dec(&mut out, finished as u64);
    push_str(&mut out, " finished)\n\n");
    let ghost head = out@;
    if ps.len() == 0 {
        push_str(&mut out, "No processes found in current session");
    } else {
        let ghost entries = Seq::new(ps@.len(), |i: int| process_entry(ps@[i]));
        let mut parts: Vec<Vec<char>> = Vec::new();
        let mut i: usize = 0;
        while i < ps.len()
            invariant
                i <= ps@.len(),
                entries == Seq::new(ps@.len(), |i: int| process_entry(ps@[i])),
                seqs_of(parts@) == entries.take(i as int),
            decreases ps@.len() - i,
        {
            let ghost before = seqs_of(parts@);
            parts.push(process_entry_text(&ps[i]));
            assert(seqs_of(parts@) =~= before.push(entries[i as int]));
            assert(seqs_of(parts@) =~= entries.take(i + 1));
            i += 1;
        }
        assert(entries.take(ps@.len() as int) =~= entries);
        let sep = chars_of("\n\n");
        let j = join_chars(&parts, sep.as_slice());
        let mut k: usize = 0;
        let ghost mid = out@;
        while k < j.len()
            invariant
                k <= j@.len(),
                out@ == mid + j@.take(k as int),
            decreases j@.len() - k,
        {
            out.push(j[k]);
            assert(j@.take(k + 1) =~= j@.take(k as int).push(j@[k as int]));
            k += 1;
        }
        assert(j@.take(j@.len() as int) =~= j@);
    }
    assert(out@ =~= process_summary(ps@, running as nat, finished as nat));
    string_from_chars(out.as_slice())
}

/// The next steps under a listing, chosen by the status of the first
/// (newest) process listed.
pub open spec fn list_actions(first: Option<(Seq<char>, Seq<char>)>) -> Seq<Seq<char>> {
    match first {
        None => Seq::empty(),
        Some((id, status)) => {
            let read = "Use readProcessOutput('"@ + id + "', 'both') to inspect stdout and stderr"@;
            let wait = "Use waitForProcess('"@ + id + "', 0) to check status"@;
            if status == "failed"@ || status == "finished"@ {
                seq![read, "Use listProcesses() again if you need another processId from this session"@]
            } else if status == "running"@ {
                seq![wait, read, "Use stopProcess('"@ + id + "') to terminate running process"@]
            } else {
                seq![wait, read]
            }
        },
    }
}

/// Lists the next steps under a listing of `ps`.
pub fn list_next_actions(ps: &[ProcessInfo]) -> (r: Vec<String>)
    ensures
        string_views(r@) == list_actions(
            if ps@.len() == 0 {
                None
            } else {
                Some((ps@[0].id@, ps@[0].status@))
            },
        ),
{
    let mut r: Vec<String> = Vec::new();
    if ps.len() == 0 {
        assert(string_views(r@) =~= Seq::<Seq<char>>::empty());
        return r;
    }
    let id = ps[0].id.as_str();
    let status = ps[0].status.as_str();
    let mut read: Vec<char> = Vec::new();
    push_str(&mut read, "Use readProcessOutput('");
    push_str(&mut read, id);
    push_str(&mut read, "', 'both') to inspect stdout and stderr");
    let mut wait: Vec<char> = Vec::new();
    push_str(&mut wait, "Use waitForProcess('");
    push_str(&mut wait, id);
    push_str(&mut wait, "', 0) to check status");
    if str_eq(status, "failed") || str_eq(status, "finished") {
        r.push(string_from_chars(read.as_slice()));
        r.push("Use listProcesses() again if you need another processId from this session".to_string());
    } else if str_eq(status, "running") {
        let mut stop: Vec<char> = Vec::new();
        push_str(&mut stop, "Use stopProcess('");
        push_str(&mut stop, id);
        push_str(&mut stop, "') to terminate running process");
        r.push(string_from_chars(wait.as_slice()));
        r.push(string_from_chars(read.as_slice()));
        r.push(string_from_chars(stop.as_slice()));
    } else {
        r.push(string_from_chars(wait.as_slice()));
        r.push(string_from_chars(read.as_slice()));
    }
    assert(string_views(r@) =~= list_actions(Some((ps@[0].id@, ps@[0].status@))));
    r
}

// ---------------------------------------------------------------------------
// The whole listing
// ---------------------------------------------------------------------------

/// The processes a status filter admits, in their order.
pub open spec fn admitted_of(filter: Seq<char>, ps: Seq<ProcessInfo>) -> Seq<ProcessInfo>
    decreases ps.len(),
{
    if ps.len() == 0 {
        Seq::empty()
    } else if admitted(filter, ps.last()) {
        admitted_of(filter, ps.drop_last()).push(ps.last())
    } else {
        admitted_of(filter, ps.drop_last())
    }
}

/// Every process a filter lets through is admitted by it and comes from
/// the list.
pub proof fn lemma_admitted_of(filter: Seq<char>, ps: Seq<ProcessInfo>)
    ensures
        forall|i: int| 0 <= i < admitted_of(filter, ps).len() ==> admitted(filter, #[trigger] admitted_of(filter, ps)[i])
            && ps.contains(admitted_of(filter, ps)[i]),
        forall|i: int| 0 <= i < ps.len() && admitted(filter, #[trigger] ps[i]) ==> admitted_of(filter, ps).contains(ps[i]),
    decreases ps.len(),
{
    if ps.len() > 0 {
        let t = ps.drop_last();
        lemma_admitted_of(filter, t);
        let a = admitted_of(filter, t);
        assert forall|i: int| 0 <= i < admitted_of(filter, ps).len() implies admitted(filter, #[trigger] admitted_of(filter, ps)[i])
            && ps.contains(admitted_of(filter, ps)[i]) by {
            if i < a.len() {
                assert(admitted_of(filter, ps)[i] == a[i]);
                let v = choose|v: int| 0 <= v < t.len() && t[v] == a[i];
                assert(ps[v] == a[i]);
            } else {
                assert(ps[ps.len() - 1] == ps.last());
            }
        }
        assert forall|i: int| 0 <= i < ps.len() && admitted(filter, #[trigger] ps[i]) implies admitted_of(filter, ps).contains(ps[i]) by {
            if i < t.len() {
                assert(t[i] == ps[i]);
                let w = choose|w: int| 0 <= w < a.len() && a[w] == t[i];
                if admitted(filter, ps.last()) {
                    assert(admitted_of(filter, ps)[w] == a[w]);
                }
            } else {
                assert(admitted_of(filter, ps)[a.len() as int] == ps.last());
            }
        }
    }
}

/// How many processes are starting or running.
pub open spec fn active_count(ps: Seq<ProcessInfo>) -> nat
    decreases ps.len(),
{
    if ps.len() == 0 {
        0
    } else {
        active_count(ps.drop_last()) + if ps.last().active { 1nat } else { 0nat }
    }
}

/// How many processes finished or failed.
pub open spec fn ended_count(ps: Seq<ProcessInfo>) -> nat
    decreases ps.len(),
{
    if ps.len() == 0 {
        0
    } else {
        ended_count(ps.drop_last()) + if ps.last().ended { 1nat } else { 0nat }
    }
}

proof fn lemma_counts_bounded(ps: Seq<ProcessInfo>)
    ensures
        active_count(ps) <= ps.len(),
        ended_count(ps) <= ps.len(),
    decreases ps.len(),
{
    if ps.len() > 0 {
        lemma_counts_bounded(ps.drop_last());
    }
}

/// A listing of a session's processes: those shown (admitted by the
/// filter, newest first), the session's counts of running and finished
/// processes, the text, and the next steps.
pub struct ProcessListing {
    pub shown: Vec<ProcessInfo>,
    pub running: usize,
    pub finished: usize,
    pub text: String,
    pub next_actions: Vec<String>,
}

/// Lists the processes of a session under a status filter (`running`,
/// `finished`, anything else meaning all).
pub fn list_processes(session: Vec<ProcessInfo>, filter: &str) -> (r: ProcessListing)
    ensures
        r.shown@ == by_start_desc(admitted_of(filter@, session@)),
        r.running == active_count(session@),
        r.finished == ended_count(session@),
        r.text@ == process_summary(r.shown@, r.running as nat, r.finished as nat),
        string_views(r.next_actions@) == list_actions(
            if r.shown@.len() == 0 {
                None
            } else {
                Some((r.shown@[0].id@, r.shown@[0].status@))
            },
        ),
{
    let ghost orig = session@;
    let total: usize = session.len();
    let mut src = session;
    let mut shown: Vec<ProcessInfo> = Vec::new();
    let mut running: usize = 0;
    let mut finished: usize = 0;
    let ghost mut k: int = 0;
    proof {
        assert(orig.skip(0) =~= orig);
        assert(orig.take(0) =~= Seq::<ProcessInfo>::empty());
    }
    while src.len() > 0
        invariant
            0 <= k <= orig.len(),
            orig.len() == total,
            src@ == orig.skip(k),
            shown@ == admitted_of(filter@, orig.take(k)),
            running == active_count(orig.take(k)),
            finished == ended_count(orig.take(k)),
        decreases src.len(),
    {
        let x = src.remove(0);
        proof {
            assert(x == orig[k]);
            assert(orig.take(k + 1).drop_last() =~= orig.take(k));
            assert(orig.take(k + 1).last() == x);
            assert(orig.skip(k).drop_first() =~= orig.skip(k + 1));
            lemma_counts_bounded(orig.take(k));
        }
        if x.active {
            running += 1;
        }
        if x.ended {
            finished += 1;
        }
        if status_filter_admits(filter, &x) {
            shown.push(x);
        }
        proof {
            k = k + 1;
        }
    }
    proof {
        assert(orig.take(k) =~= orig);
    }
    sort_processes_newest_first(&mut shown);
    let text = format_process_summary(shown.as_slice(), running, finished);
    let next_actions = list_next_actions(shown.as_slice());
    ProcessListing { shown, running, finished, text, next_actions }
}

// ---------------------------------------------------------------------------
// Waiting for and stopping a process
// ---------------------------------------------------------------------------

/// A refusal: the message and what to do instead.
pub struct GuidedMessage {
    pub message: String,
    pub guidance: Vec<String>,
}

/// What a wait does after one look at the process.
pub enum WaitDecision {
    /// The process ended (finished, failed or killed): report it.
    ReportEnded,
    /// A poll (timeout 0) of a live process: report its status.
    ReportCurrent,
    /// A poll of a live process that has been polled too often.
    ExcessivePolling,
    /// The wait ran out of time.
    TimedOut,
    /// Wait a while and look again.
    KeepWaiting,
}

pub open spec fn wait_decision(ended: bool, polling: bool, excessive: bool, timed_out: bool) -> WaitDecision {
    if ended {
        WaitDecision::ReportEnded
    } else if polling {
        if excessive { WaitDecision::ExcessivePolling } else { WaitDecision::ReportCurrent }
    } else if timed_out {
        WaitDecision::TimedOut
    } else {
        WaitDecision::KeepWaiting
    }
}

/// Decides the next move of a wait: `ended` when the process finished,
/// failed or was killed; `polling` for a timeout of 0; `excessive` when
/// polling guidance is due; `timed_out` when the timeout has passed.
pub fn decide_wait(ended: bool, polling: bool, excessive: bool, timed_out: bool) -> (r: WaitDecision)
    ensures
        r == wait_decision(ended, polling, excessive, timed_out),
{
    if ended {
        WaitDecision::ReportEnded
    } else if polling {
        if excessive {
            WaitDecision::ExcessivePolling
        } else {
            WaitDecision::ReportCurrent
        }
    } else if timed_out {
        WaitDecision::TimedOut
    } else {
        WaitDecision::KeepWaiting
    }
}

/// The count of consecutive polls that found the process running, after
/// one more poll, and whether polling guidance is due (a poll with
/// timeout 0 of a running process that reached the threshold).
pub fn record_poll(running: bool, consecutive: u64, polling: bool, threshold: u64) -> (r: (u64, bool))
    requires
        running ==> consecutive < u64::MAX,
    ensures
        r.0 == (if running { consecutive + 1 } else { 0 }),
        r.1 == (polling && running && r.0 >= threshold),
{
    let c = if running { consecutive + 1 } else { 0 };
    (c, polling && running && c >= threshold)
}

/// `{id} [{command}]` for each of the first five processes, joined by
/// commas.
pub open spec fn process_refs(ps: Seq<ProcessInfo>) -> Seq<char> {
    let shown = if ps.len() <= 5 { ps } else { ps.take(5) };
    join(Seq::new(shown.len(), |i: int| shown[i].id@ + " ["@ + shown[i].command@ + seq![']']), ", "@)
}

fn process_refs_text(ps: &[ProcessInfo]) -> (r: Vec<char>)
    ensures
        r@ == process_refs(ps@),
{
    let n = if ps.len() <= 5 { ps.len() } else { 5 };
    let ghost shown = if ps@.len() <= 5 { ps@ } else { ps@.take(5) };
    let ghost entries = Seq::new(shown.len(), |i: int| shown[i].id@ + " ["@ + shown[i].command@ + seq![']']);
    let mut parts: Vec<Vec<char>> = Vec::new();
    let mut i: usize = 0;
    while i < n
        invariant
            i <= n,
            n == shown.len(),
            shown == (if ps@.len() <= 5 { ps@ } else { ps@.take(5) }),
            entries == Seq::new(shown.len(), |i: int| shown[i].id@ + " ["@ + shown[i].command@ + seq![']']),
            seqs_of(parts@) == entries.take(i as int),
        decreases n - i,
    {
        let mut e: Vec<char> = Vec::new();
        push_str(&mut e, ps[i].id.as_str());
        push_str(&mut e, " [");
        push_str(&mut e, ps[i].command.as_str());
        e.push(']');
        assert(shown[i as int] == ps@[i as int]);
        assert(e@ =~= entries[i as int]);
        let ghost before = seqs_of(parts@);
        parts.push(e);
        assert(seqs_of(parts@) =~= before.push(entries[i as int]));
        assert(seqs_of(parts@) =~= entries.take(i + 1));
        i += 1;
    }
    assert(entries.take(n as int) =~= entries);
    let sep = chars_of(", ");
    join_chars(&parts, sep.as_slice())
}

/// The refusal of a wait for a process that is not registered; `others`
/// are the processes of the session.
pub open spec fn wait_not_found(id: Seq<char>, others: Seq<ProcessInfo>) -> (Seq<char>, Seq<Seq<char>>) {
    (
        "Process '"@ + id + "' not found in session"@,
        seq![
            if others.len() == 0 {
                "No processes found in this session"@
            } else {
                "Available processes: "@ + process_refs(others)
            },
            "Use listProcesses() to see all active processes"@,
        ],
    )
}

pub fn wait_not_found_message(id: &str, others: &[ProcessInfo]) -> (r: GuidedMessage)
    ensures
        (r.message@, string_views(r.guidance@)) == wait_not_found(id@, others@),
{
    let mut m: Vec<char> = Vec::new();
    push_str(&mut m, "Process '");
    push_str(&mut m, id);
    push_str(&mut m, "' not found in session");
    let mut first: Vec<char> = Vec::new();
    if others.len() == 0 {
        push_str(&mut first, "No processes found in this session");
    } else {
        push_str(&mut first, "Available processes: ");
        let refs = process_refs_text(others);
        let ghost before = first@;
        let mut k: usize = 0;
        while k < refs.len()
            invariant
                k <= refs@.len(),
                first@ == before + refs@.take(k as int),
            decreases refs@.len() - k,
        {
            first.push(refs[k]);
            assert(refs@.take(k + 1) =~= refs@.take(k as int).push(refs@[k as int]));
            k += 1;
        }
        assert(refs@.take(refs@.len() as int) =~= refs@);
    }
    let mut g: Vec<String> = Vec::new();
    g.push(string_from_chars(first.as_slice()));
    g.push("Use listProcesses() to see all active processes".to_string());
    let r = GuidedMessage { message: string_from_chars(m.as_slice()), guidance: g };
    assert(string_views(r.guidance@) =~= wait_not_found(id@, others@).1);
    r
}

/// The refusal of a wait that ran out of time.
pub open spec fn wait_timed_out(id: Seq<char>, secs: nat) -> (Seq<char>, Seq<Seq<char>>) {
    (
        "Timeout waiting for process "@ + id + " ("@ + dec(secs) + "s)"@,
        seq![
            "Process is still running in background"@,
            "Use waitForProcess(timeout=0) to check status without waiting"@,
            "Increase timeout parameter if needed"@,
        ],
    )
}

pub fn wait_timed_out_message(id: &str, secs: u64) -> (r: GuidedMessage)
    ensures
        (r.message@, string_views(r.guidance@)) == wait_timed_out(id@, secs as nat),
{
    let mut m: Vec<char> = Vec::new();
    push_str(&mut m, "Timeout waiting for process ");
    push_str(&mut m, id);
    push_str(&mut m, " (");
    push_dec(&mut m, secs);
    push_str(&mut m, "s)");
    let mut g: Vec<String> = Vec::new();
    g.push("Process is still running in background".to_string());
    g.push("Use waitForProcess(timeout=0) to check status without waiting".to_string());
    g.push("Increase timeout parameter if needed".to_string());
    let r = GuidedMessage { message: string_from_chars(m.as_slice()), guidance: g };
    assert(string_views(r.guidance@) =~= wait_timed_out(id@, secs as nat).1);
    r
}

/// The refusal to stop a process that is not registered; `running` are
/// the running processes of the session.
pub open spec fn stop_not_found(id: Seq<char>, running: Seq<ProcessInfo>) -> (Seq<char>, Seq<Seq<char>>) {
    (
        "Process '"@ + id + "' not found"@,
        seq![
            if running.len() == 0 {
                "No running processes found in this session"@
            } else {
                "Running processes: "@ + process_refs(running)
            },
            "Use listProcesses() to see all processes"@,
            "Only running processes can be stopped"@,
        ],
    )
}

pub fn stop_not_found_message(id: &str, running: &[ProcessInfo]) -> (r: GuidedMessage)
    ensures
        (r.message@, string_views(r.guidance@)) == stop_not_found(id@, running@),
{
    let mut m: Vec<char> = Vec::new();
    push_str(&mut m, "Process '");
    push_str(&mut m, id);
    push_str(&mut m, "' not found");
    let mut first: Vec<char> = Vec::new();
    if running.len() == 0 {
        push_str(&mut first, "No running processes found in this session");
    } else {
        push_str(&mut first, "Running processes: ");
        let refs = process_refs_text(running);
        let ghost before = first@;
        let mut k: usize = 0;
        while k < refs.len()
            invariant
                k <= refs@.len(),
                first@ == before + refs@.take(k as int),
            decreases refs@.len() - k,
        {
            first.push(refs[k]);
            assert(refs@.take(k + 1) =~= refs@.take(k as int).push(refs@[k as int]));
            k += 1;
        }
        assert(refs@.take(refs@.len() as int) =~= refs@);
    }
    let mut g: Vec<String> = Vec::new();
    g.push(string_from_chars(first.as_slice()));
    g.push("Use listProcesses() to see all processes".to_string());
    g.push("Only running processes can be stopped".to_string());
    let r = GuidedMessage { message: string_from_chars(m.as_slice()), guidance: g };
    assert(string_views(r.guidance@) =~= stop_not_found(id@, running@).1);
    r
}

/// The index of the first process with the given id, from `i` on, or -1.
pub open spec fn index_of_id(ps: Seq<ProcessInfo>, id: Seq<char>, i: int) -> int
    decreases ps.len() - i,
{
    if i < 0 || i >= ps.len() {
        -1
    } else if ps[i].id@ == id {
        i
    } else {
        index_of_id(ps, id, i + 1)
    }
}

/// The refusal to stop a process that has already ended; `status` is how
/// the process table names its state.
pub open spec fn already_terminated(id: Seq<char>, status: Seq<char>) -> (Seq<char>, Seq<Seq<char>>) {
    (
        "Process "@ + id + " has already terminated with status: "@ + status,
        seq!["Use listProcesses to see running processes"@, "Only running processes can be stopped"@],
    )
}

/// What a request to stop a process comes to.
pub enum StopDecision {
    /// No process of the session has the id: the refusal.
    NotFound(GuidedMessage),
    /// The process has already ended: the refusal.
    AlreadyEnded(GuidedMessage),
    /// Stop it, sending a termination signal to this PID when there is one.
    Stop { signal: Option<u64> },
}

/// Decides a stop request against the processes of the session (a
/// process that is not starting or running has finished, failed or been
/// killed).
pub fn decide_stop(id: &str, session: Vec<ProcessInfo>) -> (r: StopDecision)
    ensures
        ({
            let k = index_of_id(session@, id@, 0);
            match r {
                StopDecision::NotFound(g) => k < 0 && (g.message@, string_views(g.guidance@)) == stop_not_found(
                    id@,
                    admitted_of("running"@, session@),
                ),
                StopDecision::AlreadyEnded(g) => 0 <= k < session@.len() && !session@[k].active && (
                g.message@,
                string_views(g.guidance@),
                ) == already_terminated(id@, session@[k].status@),
                StopDecision::Stop { signal } => 0 <= k < session@.len() && session@[k].active && signal
                    == session@[k].pid,
            }
        }),
{
    let mut i: usize = 0;
    while i < session.len()
        invariant
            i <= session@.len(),
            index_of_id(session@, id@, 0) == index_of_id(session@, id@, i as int),
        decreases session@.len() - i,
    {
        if str_eq(session[i].id.as_str(), id) {
            let p = &session[i];
            if !p.active {
                let mut m: Vec<char> = Vec::new();
                push_str(&mut m, "Process ");
                push_str(&mut m, id);
                push_str(&mut m, " has already terminated with status: ");
                push_str(&mut m, p.status.as_str());
                let mut g: Vec<String> = Vec::new();
                g.push("Use listProcesses to see running processes".to_string());
                g.push("Only running processes can be stopped".to_string());
                let r = GuidedMessage { message: string_from_chars(m.as_slice()), guidance: g };
                assert(r.message@ =~= already_terminated(id@, p.status@).0);
                assert(string_views(r.guidance@) =~= already_terminated(id@, p.status@).1);
                return StopDecision::AlreadyEnded(r);
            }
            return StopDecision::Stop { signal: p.pid };
        }
        i += 1;
    }
    let running = active_only(session);
    StopDecision::NotFound(stop_not_found_message(id, running.as_slice()))
}

/// The processes that are starting or running, in their order.
fn active_only(session: Vec<ProcessInfo>) -> (r: Vec<ProcessInfo>)
    ensures
        r@ == admitted_of("running"@, session@),
{
    let ghost orig = session@;
    let mut src = session;
    let mut out: Vec<ProcessInfo> = Vec::new();
    let ghost mut k: int = 0;
    proof {
        assert(orig.skip(0) =~= orig);
        assert(orig.take(0) =~= Seq::<ProcessInfo>::empty());
    }
    while src.len() > 0
        invariant
            0 <= k <= orig.len(),
            src@ == orig.skip(k),
            out@ == admitted_of("running"@, orig.take(k)),
        decreases src.len(),
    {
        let x = src.remove(0);
        proof {
            assert(x == orig[k]);
            assert(orig.take(k + 1).drop_last() =~= orig.take(k));
            assert(orig.take(k + 1).last() == x);
            assert(orig.skip(k).drop_first() =~= orig.skip(k + 1));
        }
        if x.active {
            out.push(x);
        }
        proof {
            k = k + 1;
        }
    }
    proof {
        assert(orig.take(k) =~= orig);
    }
    out
}

/// The tool that found a process of another session.
#[derive(Clone, Copy, PartialEq, Eq, Structural)]
pub enum SessionTool {
    ReadOutput,
    Wait,
    Stop,
}

/// The refusal of a process that belongs to another session.
pub open spec fn other_session_refusal(id: Seq<char>, tool: SessionTool) -> (Seq<char>, Seq<Seq<char>>) {
    (
        "Process '"@ + id + "' not found in current session"@,
        match tool {
            SessionTool::ReadOutput => seq![
                "Process may belong to a different session"@,
                "Use workspace__listProcesses() to see processes in your session"@,
            ],
            SessionTool::Wait => seq!["Process belongs to another session"@],
            SessionTool::Stop => seq![
                "Process may belong to a different session"@,
                "Use listProcesses() to see processes in your session"@,
            ],
        },
    )
}

/// Checks that a registered process belongs to the caller's session: no
/// refusal when it does, else the tool's refusal.
pub fn check_process_session(id: &str, owner_session: &str, session: &str, tool: SessionTool) -> (r: Option<GuidedMessage>)
    ensures
        r is None <==> owner_session@ == session@,
        r matches Some(g) ==> (g.message@, string_views(g.guidance@)) == other_session_refusal(id@, tool),
{
    if str_eq(owner_session, session) {
        return None;
    }
    let mut m: Vec<char> = Vec::new();
    push_str(&mut m, "Process '");
    push_str(&mut m, id);
    push_str(&mut m, "' not found in current session");
    let mut g: Vec<String> = Vec::new();
    match tool {
        SessionTool::ReadOutput => {
            g.push("Process may belong to a different session".to_string());
            g.push("Use workspace__listProcesses() to see processes in your session".to_string());
        },
        SessionTool::Wait => {
            g.push("Process belongs to another session".to_string());
        },
        SessionTool::Stop => {
            g.push("Process may belong to a different session".to_string());
            g.push("Use listProcesses() to see processes in your session".to_string());
        },
    }
    let r = GuidedMessage { message: string_from_chars(m.as_slice()), guidance: g };
    assert(r.message@ =~= other_session_refusal(id@, tool).0);
    assert(string_views(r.guidance@) =~= other_session_refusal(id@, tool).1);
    Some(r)
}

/// The refusal of a read of output from a process that is not registered
/// in the session; `others` are the session's processes.
pub open spec fn output_not_registered(id: Seq<char>, others: Seq<ProcessInfo>) -> (Seq<char>, Seq<Seq<char>>) {
    (
        "Process '"@ + id + "' is not registered in this session"@,
        crate::utils::not_found_guidance(
            if others.len() == 0 {
                "No processes found in this session"@
            } else {
                "Available processes: "@ + process_refs(others)
            },
        ),
    )
}

pub fn output_not_registered_message(id: &str, others: &[ProcessInfo]) -> (r: GuidedMessage)
    ensures
        (r.message@, string_views(r.guidance@)) == output_not_registered(id@, others@),
{
    let mut m: Vec<char> = Vec::new();
    push_str(&mut m, "Process '");
    push_str(&mut m, id);
    push_str(&mut m, "' is not registered in this session");
    let summary = if others.len() == 0 {
        "No processes found in this session".to_string()
    } else {
        let mut a: Vec<char> = Vec::new();
        push_str(&mut a, "Available processes: ");
        let refs = process_refs_text(others);
        push_chars(&mut a, refs.as_slice());
        string_from_chars(a.as_slice())
    };
    let g = crate::utils::process_not_found_guidance(summary);
    let r = GuidedMessage { message: string_from_chars(m.as_slice()), guidance: g };
    assert(r.message@ =~= output_not_registered(id@, others@).0);
    r
}

} // verus!
