//! Reading a window of a file's lines: which lines a request asks for,
//! how many of them fit the inline limit, and how the result is labelled.
use vstd::prelude::*;
use crate::text::{chars_of, dec, join, join_chars, parse_usize, parse_usize_spec, push_chars, push_dec, push_str, seqs_of, string_from_chars, slice_chars, starts_with, ends_with, starts_with_exec, ends_with_exec, contains_seq, first_occ, lemma_first_occ, find_from, lower_seq, to_ascii_lower, pad_left, push_dec_padded};
use crate::hashline::{hashline, hashline_at, hashline_chars, prefix_state, prefix_step, prefix_step_chars, FNV_OFFSET};

verus! {

/// How a read request selects lines.
#[derive(Debug, Clone, Copy)]
pub enum ReadMode {
    Range { start: usize, end: usize },
    Tail(usize),
}

pub const READ_FILE_BASE_HEADROOM_BYTES: usize = 1024usize;
pub const READ_FILE_ANCHOR_HEADROOM_BYTES: usize = 2048usize;
pub const READ_FILE_MIN_VISIBLE_CONTENT_BYTES: usize = 1024usize;

// ---------------------------------------------------------------------------
// Line ranges
// ---------------------------------------------------------------------------

pub open spec fn sat(x: int) -> int {
    if x < 0 { 0 } else { x }
}

/// Where a positive-size read starts.
pub open spec fn forward_start(total: usize, off: Option<isize>) -> int {
    match off {
        Some(o) => if o < 0 {
            sat(total + o) + 1
        } else if o == 0 {
            1
        } else {
            o as int
        },
        None => 1,
    }
}

/// The inclusive 1-based line range `[start, end]` a read asks for.
///
/// A negative size reads the `|size|` lines ending at the offset (or at
/// the end of the file); a negative offset counts from the end of the
/// file; offset 0 means line 1; no size means "to the end".
pub open spec fn range_of(total: usize, off: Option<isize>, size: Option<isize>) -> (int, int) {
    match size {
        Some(sz) => if sz < 0 {
            let count = -sz;
            let end = match off {
                Some(o) => if o < 0 { sat(total + o) } else { o as int },
                None => total as int,
            };
            (sat(end - count) + 1, end)
        } else {
            let start = forward_start(total, off);
            (start, start + sz - 1)
        },
        None => match off {
            Some(o) => if o < 0 {
                (sat(total + o) + 1, total as int)
            } else {
                (if o == 0 { 1 } else { o as int }, usize::MAX as int)
            },
            None => (1, usize::MAX as int),
        },
    }
}

/// The range can be computed without overflow.
pub open spec fn range_computable(total: usize, off: Option<isize>, size: Option<isize>) -> bool {
    match size {
        Some(sz) => sz >= 0 ==> forward_start(total, off) + sz <= usize::MAX,
        None => true,
    }
}

/// `|x|` of a negative number.
fn magnitude(x: isize) -> (r: usize)
    requires
        x < 0,
    ensures
        r == -x,
{
    ((-(x + 1)) as usize) + 1
}

/// Resolve the 1-based inclusive line range of a read (see `range_of`).
pub fn resolve_range(total_lines: usize, offset_opt: Option<isize>, size_opt: Option<isize>) -> (r: (usize, usize))
    requires
        range_computable(total_lines, offset_opt, size_opt),
    ensures
        (r.0 as int, r.1 as int) == range_of(total_lines, offset_opt, size_opt),
{
    match size_opt {
        Some(sz) => {
            if sz < 0 {
                let count = magnitude(sz);
                match offset_opt {
                    Some(off) => {
                        if off < 0 {
                            let skip = magnitude(off);
                            let end = total_lines.saturating_sub(skip);
                            let start = end.saturating_sub(count) + 1;
                            (start, end)
                        } else {
                            let end = off as usize;
                            let start = end.saturating_sub(count) + 1;
                            (start, end)
                        }
                    },
                    None => {
                        let end = total_lines;
                        let start = end.saturating_sub(count) + 1;
                        (start, end)
                    },
                }
            } else {
                let count = sz as usize;
                match offset_opt {
                    Some(off) => {
                        if off < 0 {
                            let skip = magnitude(off);
                            let start = total_lines.saturating_sub(skip) + 1;
                            let end = start + count - 1;
                            (start, end)
                        } else {
                            let start = if off == 0 { 1 } else { off as usize };
                            let end = start + count - 1;
                            (start, end)
                        }
                    },
                    None => {
                        let start: usize = 1;
                        let end = start + count - 1;
                        (start, end)
                    },
                }
            }
        },
        None => match offset_opt {
            Some(off) => {
                if off < 0 {
                    let skip = magnitude(off);
                    let start = total_lines.saturating_sub(skip) + 1;
                    (start, total_lines)
                } else {
                    let start = if off == 0 { 1 } else { off as usize };
                    (start, usize::MAX)
                }
            },
            None => (1, usize::MAX),
        },
    }
}

// ---------------------------------------------------------------------------
// Byte lengths
// ---------------------------------------------------------------------------

/// The number of bytes of `c` in UTF-8.
pub open spec fn utf8_width(c: char) -> nat {
    if (c as u32) < 0x80 {
        1
    } else if (c as u32) < 0x800 {
        2
    } else if (c as u32) < 0x10000 {
        3
    } else {
        4
    }
}

/// The number of bytes of `s` in UTF-8 (what `str::len` gives).
pub open spec fn byte_len(s: Seq<char>) -> nat
    decreases s.len(),
{
    if s.len() == 0 {
        0
    } else {
        byte_len(s.drop_last()) + utf8_width(s.last())
    }
}

pub proof fn lemma_byte_len_bound(s: Seq<char>)
    ensures
        s.len() <= byte_len(s) <= 4 * s.len(),
    decreases s.len(),
{
    if s.len() > 0 {
        lemma_byte_len_bound(s.drop_last());
    }
}

pub proof fn lemma_byte_len_append(a: Seq<char>, b: Seq<char>)
    ensures
        byte_len(a + b) == byte_len(a) + byte_len(b),
    decreases b.len(),
{
    if b.len() > 0 {
        lemma_byte_len_append(a, b.drop_last());
        assert((a + b).drop_last() =~= a + b.drop_last());
    } else {
        assert(a + b =~= a);
    }
}

fn utf8_width_exec(c: char) -> (r: u128)
    ensures
        r == utf8_width(c),
{
    let v = c as u32;
    if v < 0x80 {
        1
    } else if v < 0x800 {
        2
    } else if v < 0x10000 {
        3
    } else {
        4
    }
}

/// The UTF-8 byte length of `s`.
pub fn byte_len_exec(s: &[char]) -> (r: u128)
    ensures
        r == byte_len(s@),
{
    let mut n: u128 = 0;
    let mut i: usize = 0;
    while i < s.len()
        invariant
            i <= s.len(),
            n == byte_len(s@.take(i as int)),
        decreases s.len() - i,
    {
        proof {
            assert(s@.take(i + 1).drop_last() =~= s@.take(i as int));
            lemma_byte_len_bound(s@.take(i as int));
        }
        n = n + utf8_width_exec(s[i]);
        i += 1;
    }
    assert(s@.take(s.len() as int) =~= s@);
    n
}

/// The length of the longest prefix of `s` that takes at most `lim` bytes.
pub open spec fn chars_within(s: Seq<char>, lim: int) -> nat
    decreases s.len(),
{
    if byte_len(s) <= lim {
        s.len()
    } else if s.len() == 0 {
        0
    } else {
        chars_within(s.drop_last(), lim)
    }
}

/// The number of leading characters of `s` that fit in `lim` bytes.
fn count_chars_within(s: &[char], lim: u128) -> (r: usize)
    ensures
        r == chars_within(s@, lim as int),
        r <= s@.len(),
{
    let mut k: usize = s.len();
    let mut b: u128 = byte_len_exec(s);
    assert(s@.take(k as int) =~= s@);
    while k > 0 && b > lim
        invariant
            k <= s@.len(),
            b == byte_len(s@.take(k as int)),
            chars_within(s@, lim as int) == chars_within(s@.take(k as int), lim as int),
        decreases k,
    {
        proof {
            assert(s@.take(k as int).drop_last() =~= s@.take(k - 1));
        }
        b = b - utf8_width_exec(s[k - 1]);
        k -= 1;
    }
    k
}

// ---------------------------------------------------------------------------
// Reading a window of lines
// ---------------------------------------------------------------------------

/// A window of a file's lines, as shown to the reader.
pub struct ReadFileChunk {
    pub content: String,
    pub total_lines: usize,
    pub displayed_start_line: usize,
    pub displayed_end_line: usize,
    pub displayed_line_count: usize,
    pub truncated: bool,
    pub next_start_line: Option<usize>,
    pub suggested_end_line: Option<usize>,
    pub next_line_too_large: bool,
    pub hard_cut_chars_shown: usize,
}

/// A chunk as plain values.
pub struct ChunkView {
    pub content: Seq<char>,
    pub total_lines: nat,
    pub displayed_start_line: int,
    pub displayed_end_line: int,
    pub displayed_line_count: nat,
    pub truncated: bool,
    pub next_start_line: Option<int>,
    pub suggested_end_line: Option<int>,
    pub next_line_too_large: bool,
    pub hard_cut_chars_shown: nat,
}

pub open spec fn opt_int(o: Option<usize>) -> Option<int> {
    match o {
        Some(v) => Some(v as int),
        None => None,
    }
}

pub open spec fn chunk_view(c: ReadFileChunk) -> ChunkView {
    ChunkView {
        content: c.content@,
        total_lines: c.total_lines as nat,
        displayed_start_line: c.displayed_start_line as int,
        displayed_end_line: c.displayed_end_line as int,
        displayed_line_count: c.displayed_line_count as nat,
        truncated: c.truncated,
        next_start_line: opt_int(c.next_start_line),
        suggested_end_line: opt_int(c.suggested_end_line),
        next_line_too_large: c.next_line_too_large,
        hard_cut_chars_shown: c.hard_cut_chars_shown as nat,
    }
}

/// Line `i` (0-based) as shown: anchored or raw.
pub open spec fn rendered_at(ls: Seq<Seq<char>>, i: int, anchors: bool) -> Seq<char> {
    if anchors { hashline_at(ls, i) } else { ls[i] }
}

/// The first 0-based index a read of `[start, end]` shows.
pub open spec fn window_lo(start: usize) -> int {
    if start == 0 { 0 } else { start - 1 }
}

/// One past the last 0-based index a read of `[start, end]` shows.
pub open spec fn window_hi(ls: Seq<Seq<char>>, end: usize) -> int {
    if end <= ls.len() { end as int } else { ls.len() as int }
}

/// The lines of the window, rendered.
pub open spec fn window_lines(ls: Seq<Seq<char>>, start: usize, end: usize, anchors: bool) -> Seq<Seq<char>> {
    let lo = window_lo(start);
    let hi = window_hi(ls, end);
    Seq::new(if hi > lo { (hi - lo) as nat } else { 0 }, |j: int| rendered_at(ls, lo + j, anchors))
}

/// How many of the lines `r[k..]` still fit after `used` bytes: lines are
/// taken in order, each costing its bytes plus one for the separating
/// line feed, until one does not fit.
pub open spec fn fit_count(r: Seq<Seq<char>>, limit: int, k: int, used: int) -> int
    decreases r.len() - k,
{
    if k >= r.len() || k < 0 {
        k
    } else {
        let cand = used + (if k > 0 { 1int } else { 0int }) + byte_len(r[k]);
        if cand <= limit {
            fit_count(r, limit, k + 1, cand)
        } else {
            k
        }
    }
}

/// `" …[hard-cut at {n} chars, line continues]"`.
pub open spec fn hard_cut_note(n: nat) -> Seq<char> {
    " …[hard-cut at "@ + dec(n) + " chars, line continues]"@
}

/// The lines shown, whether the window was cut short, where the next read
/// starts, whether the first line alone was too wide, and how many of its
/// characters were shown.
pub open spec fn shown_lines(ls: Seq<Seq<char>>, start: usize, end: usize, anchors: bool, limit: usize) -> (Seq<Seq<char>>, bool, Option<int>, bool, nat) {
    let r = window_lines(ls, start, end, anchors);
    let lo = window_lo(start);
    let k = fit_count(r, limit as int, 0, 0);
    if k >= r.len() {
        (r, false, None, false, 0)
    } else if k == 0 {
        let c = chars_within(r[0], limit as int);
        (seq![r[0].take(c as int) + hard_cut_note(c)], true, Some(lo + 1), true, c)
    } else {
        (r.take(k), true, Some(lo + k + 1), false, 0)
    }
}

pub const EMPTY_FILE_OUT_OF_RANGE_PREFIX: &'static str = "File is empty (0 lines);";

/// What reading `[start, end]` of the lines `ls` gives: refused for an
/// empty file read past line 1 and for a start past the end; otherwise the
/// lines that fit the limit, with where to continue.
pub open spec fn chunk_outcome(ls: Seq<Seq<char>>, start: usize, end: usize, anchors: bool, limit: usize) -> Result<ChunkView, Seq<char>> {
    let total = ls.len();
    let (shown, truncated, next, too_large, hc) = shown_lines(ls, start, end, anchors, limit);
    let count = shown.len();
    if total == 0 {
        if start > 1 {
            Err("File is empty (0 lines); omit offset/size or use offset: 1 (received offset: "@ + dec(start as nat) + seq![')'])
        } else {
            Ok(ChunkView {
                content: Seq::empty(),
                total_lines: 0,
                displayed_start_line: start as int,
                displayed_end_line: start as int,
                displayed_line_count: 0,
                truncated: false,
                next_start_line: None,
                suggested_end_line: None,
                next_line_too_large: false,
                hard_cut_chars_shown: 0,
            })
        }
    } else if count == 0 && start > total {
        Err("Requested offset "@ + dec(start as nat) + " exceeds file length of "@ + dec(total) + " lines"@)
    } else {
        Ok(ChunkView {
            content: join(shown, seq!['\n']),
            total_lines: total,
            displayed_start_line: start as int,
            displayed_end_line: if count == 0 { start as int } else { start + count - 1 },
            displayed_line_count: count,
            truncated,
            next_start_line: next,
            suggested_end_line: if count == 0 {
                next
            } else {
                match next {
                    Some(ns) => Some(if ns + count - 1 <= total { ns + count - 1 } else { total as int }),
                    None => None,
                }
            },
            next_line_too_large: too_large,
            hard_cut_chars_shown: hc,
        })
    }
}

pub open spec fn string_seqs(v: Seq<String>) -> Seq<Seq<char>> {
    Seq::new(v.len(), |i: int| v[i]@)
}

pub proof fn lemma_fit_count_bounds(r: Seq<Seq<char>>, limit: int, k: int, used: int)
    requires
        0 <= k <= r.len(),
    ensures
        k <= fit_count(r, limit, k, used) <= r.len(),
    decreases r.len() - k,
{
    if k < r.len() {
        let cand = used + (if k > 0 { 1int } else { 0int }) + byte_len(r[k]);
        if cand <= limit {
            lemma_fit_count_bounds(r, limit, k + 1, cand);
        }
    }
}

/// The lines of the window that fit, with the bytes they use.
fn collect_window(lines: &Vec<String>, start: usize, end: usize, show_line_anchors: bool, limit: usize) -> (r: (Vec<Vec<char>>, usize))
    ensures
        seqs_of(r.0@) == window_lines(string_seqs(lines@), start, end, show_line_anchors).take(r.1 as int),
        r.1 as int == fit_count(window_lines(string_seqs(lines@), start, end, show_line_anchors), limit as int, 0, 0),
        r.1 <= window_lines(string_seqs(lines@), start, end, show_line_anchors).len(),
{
    let ghost ls = string_seqs(lines@);
    let ghost w = window_lines(ls, start, end, show_line_anchors);
    let lo: usize = if start == 0 { 0 } else { start - 1 };
    let hi: usize = if end <= lines.len() { end } else { lines.len() };
    let mut state: u32 = FNV_OFFSET;
    // advance the anchor state over the lines before the window
    let mut i: usize = 0;
    if show_line_anchors {
        while i < lo && i < lines.len()
            invariant
                i <= lines@.len(),
                i <= lo,
                ls == string_seqs(lines@),
                state == prefix_state(ls, i as nat),
            decreases lines@.len() - i,
        {
            let cs = chars_of(lines[i].as_str());
            state = prefix_step_chars(state, cs.as_slice());
            i += 1;
        }
    }
    let mut out: Vec<Vec<char>> = Vec::new();
    let mut used: usize = 0;
    let mut k: usize = 0;
    let n: usize = if hi > lo { hi - lo } else { 0 };
    assert(w.len() == n);
    proof {
        lemma_fit_count_bounds(w, limit as int, 0, 0);
        if n > 0 && show_line_anchors {
            assert(i == lo);
        }
    }
    while k < n
        invariant_except_break
            fit_count(w, limit as int, 0, 0) == fit_count(w, limit as int, k as int, used as int),
            show_line_anchors && n > 0 ==> state == prefix_state(ls, (lo + k) as nat),
        invariant
            ls == string_seqs(lines@),
            w == window_lines(ls, start, end, show_line_anchors),
            lo == window_lo(start),
            hi == window_hi(ls, end),
            n == w.len(),
            hi <= lines@.len(),
            k <= n,
            used <= limit,
            seqs_of(out@) == w.take(k as int),
        ensures
            fit_count(w, limit as int, 0, 0) == k,
            k <= n,
            seqs_of(out@) == w.take(k as int),
        decreases n - k,
    {
        let idx = lo + k;
        let cs = chars_of(lines[idx].as_str());
        let ghost st0 = state;
        let rendered: Vec<char> = if show_line_anchors {
            hashline_chars(idx + 1, cs.as_slice(), &mut state)
        } else {
            cs
        };
        proof {
            if show_line_anchors {
                assert(cs@ == ls[idx as int]);
                assert(prefix_state(ls, (idx + 1) as nat) == prefix_step(prefix_state(ls, idx as nat), ls[idx as int]));
            }
        }
        assert(rendered@ == w[k as int]);
        let sep: u128 = if k > 0 { 1 } else { 0 };
        let rl = rendered.len();
        proof {
            lemma_byte_len_bound(rendered@);
        }
        let cand: u128 = used as u128 + sep + byte_len_exec(rendered.as_slice());
        if cand <= limit as u128 {
            used = cand as usize;
            let ghost before = seqs_of(out@);
            out.push(rendered);
            assert(seqs_of(out@) =~= before.push(w[k as int]));
            assert(seqs_of(out@) =~= w.take(k + 1));
            k += 1;
        } else {
            assert(fit_count(w, limit as int, k as int, used as int) == k as int);
            break;
        }
    }
    (out, k)
}

/// The rendered line `idx` (0-based) as `rendered_at` gives it.
fn render_line(lines: &Vec<String>, idx: usize, show_line_anchors: bool) -> (r: Vec<char>)
    requires
        idx < lines@.len(),
    ensures
        r@ == rendered_at(string_seqs(lines@), idx as int, show_line_anchors),
{
    let ghost ls = string_seqs(lines@);
    let len = lines.len();
    assert(idx < len);
    let cs = chars_of(lines[idx].as_str());
    if show_line_anchors {
        let mut state: u32 = FNV_OFFSET;
        let mut i: usize = 0;
        while i < idx
            invariant
                i <= idx < lines@.len(),
                ls == string_seqs(lines@),
                state == prefix_state(ls, i as nat),
            decreases idx - i,
        {
            let c2 = chars_of(lines[i].as_str());
            state = prefix_step_chars(state, c2.as_slice());
            i += 1;
        }
        hashline_chars(idx + 1, cs.as_slice(), &mut state)
    } else {
        cs
    }
}

/// The shown lines of a read, as `shown_lines` gives them.
fn select_shown(lines: &Vec<String>, start: usize, end: usize, show_line_anchors: bool, limit: usize) -> (r: (Vec<Vec<char>>, bool, Option<usize>, bool, usize))
    ensures
        ({
            let (sh, t, nx, tl, hc) = shown_lines(string_seqs(lines@), start, end, show_line_anchors, limit);
            &&& seqs_of(r.0@) == sh
            &&& r.1 == t
            &&& opt_int(r.2) == nx
            &&& r.3 == tl
            &&& r.4 == hc
        }),
        r.0@.len() > 0 ==> window_lo(start) + r.0@.len() <= lines@.len(),
{
    let ghost ls = string_seqs(lines@);
    let ghost w = window_lines(ls, start, end, show_line_anchors);
    let (fitted, k) = collect_window(lines, start, end, show_line_anchors, limit);
    let lo: usize = if start == 0 { 0 } else { start - 1 };
    let hi: usize = if end <= lines.len() { end } else { lines.len() };
    let n: usize = if hi > lo { hi - lo } else { 0 };
    assert(w.len() == n);
    assert(n > 0 ==> lo + n <= lines@.len());
    assert(seqs_of(fitted@).len() == fitted@.len());
    assert(fitted@.len() == k);
    if k < n {
        if k == 0 {
            // the first line alone is wider than the limit: show a hard-cut preview
            let rendered = render_line(lines, lo, show_line_anchors);
            assert(rendered@ == w[0]);
            let c = count_chars_within(rendered.as_slice(), limit as u128);
            let mut line = slice_chars(rendered.as_slice(), 0, c);
            push_str(&mut line, " …[hard-cut at ");
            push_dec(&mut line, c as u64);
            push_str(&mut line, " chars, line continues]");
            assert(line@ =~= w[0].take(c as int) + hard_cut_note(c as nat));
            let mut shown: Vec<Vec<char>> = Vec::new();
            shown.push(line);
            assert(seqs_of(shown@) =~= seq![w[0].take(c as int) + hard_cut_note(c as nat)]);
            (shown, true, Some(lo + 1), true, c)
        } else {
            (fitted, true, Some(lo + k + 1), false, 0)
        }
    } else {
        assert(w.take(k as int) =~= w);
        (fitted, false, None, false, 0)
    }
}

/// Read lines `[start, end]` (1-based, inclusive) of `lines`, rendered with
/// anchors when asked, keeping to `visible_content_limit_bytes` bytes (see
/// `chunk_outcome`).
#[verifier::rlimit(40)]
pub fn read_chunk_from_lines(lines: &Vec<String>, start: usize, end: usize, show_line_anchors: bool, visible_content_limit_bytes: usize) -> (r: Result<ReadFileChunk, String>)
    ensures
        match r {
            Ok(c) => chunk_outcome(string_seqs(lines@), start, end, show_line_anchors, visible_content_limit_bytes) == Ok::<ChunkView, Seq<char>>(chunk_view(c)),
            Err(m) => chunk_outcome(string_seqs(lines@), start, end, show_line_anchors, visible_content_limit_bytes) == Err::<ChunkView, Seq<char>>(m@),
        },
{
    let ghost ls = string_seqs(lines@);
    let (shown, truncated, next_start_line, next_line_too_large, hard_cut_chars_shown) = select_shown(lines, start, end, show_line_anchors, visible_content_limit_bytes);
    let total = lines.len();
    let count = shown.len();
    if total == 0 {
        if start > 1 {
            let mut m: Vec<char> = Vec::new();
            push_str(&mut m, "File is empty (0 lines); omit offset/size or use offset: 1 (received offset: ");
            push_dec(&mut m, start as u64);
            m.push(')');
            assert(m@ =~= "File is empty (0 lines); omit offset/size or use offset: 1 (received offset: "@ + dec(start as nat) + seq![')']);
            return Err(string_from_chars(m.as_slice()));
        }
        return Ok(ReadFileChunk {
            content: String::new(),
            total_lines: 0,
            displayed_start_line: start,
            displayed_end_line: start,
            displayed_line_count: 0,
            truncated: false,
            next_start_line: None,
            suggested_end_line: None,
            next_line_too_large: false,
            hard_cut_chars_shown: 0,
        });
    }
    if count == 0 && start > total {
        let mut m: Vec<char> = Vec::new();
        push_str(&mut m, "Requested offset ");
        push_dec(&mut m, start as u64);
        push_str(&mut m, " exceeds file length of ");
        push_dec(&mut m, total as u64);
        push_str(&mut m, " lines");
        assert(m@ =~= "Requested offset "@ + dec(start as nat) + " exceeds file length of "@ + dec(total as nat) + " lines"@);
        return Err(string_from_chars(m.as_slice()));
    }
    assert(count > 0 ==> window_lo(start) + count <= total);
    let displayed_end_line = if count == 0 {
        start
    } else if start == 0 {
        count - 1
    } else {
        (start - 1) + count
    };
    let suggested_end_line = if count == 0 {
        next_start_line
    } else {
        match next_start_line {
            Some(ns) => {
                let s = ns as u128 + count as u128 - 1;
                Some(if s <= total as u128 { s as usize } else { total })
            },
            None => None,
        }
    };
    let nl = ['\n'];
    assert(nl@ =~= seq!['\n']);
    let content = join_chars(&shown, &nl);
    Ok(ReadFileChunk {
        content: string_from_chars(content.as_slice()),
        total_lines: total,
        displayed_start_line: start,
        displayed_end_line,
        displayed_line_count: count,
        truncated,
        next_start_line,
        suggested_end_line,
        next_line_too_large,
        hard_cut_chars_shown,
    })
}

// ---------------------------------------------------------------------------
// Error messages of a read
// ---------------------------------------------------------------------------

/// The phrase, in lower case, that marks a refusal to read binary content.
pub const BINARY_FILE_ERROR_PHRASE: &'static str = "appears to be binary";

/// Whether a read error is the refusal of a line range of an empty file.
pub fn is_empty_file_out_of_range_error(message: &str) -> (r: bool)
    ensures
        r == starts_with(message@, EMPTY_FILE_OUT_OF_RANGE_PREFIX@),
{
    let m = chars_of(message);
    let p = chars_of(EMPTY_FILE_OUT_OF_RANGE_PREFIX);
    starts_with_exec(m.as_slice(), p.as_slice())
}

/// Whether a read error says the content is binary, in any ASCII case.
pub fn is_binary_file_error(message: &str) -> (r: bool)
    ensures
        r == contains_seq(lower_seq(message@), BINARY_FILE_ERROR_PHRASE@),
{
    let m = chars_of(message);
    let lower = to_ascii_lower(m.as_slice());
    let p = chars_of(BINARY_FILE_ERROR_PHRASE);
    proof {
        lemma_first_occ(lower@, p@);
        assert(lower@.skip(0) =~= lower@);
    }
    match find_from(lower.as_slice(), p.as_slice(), 0) {
        Some(_) => true,
        None => false,
    }
}

/// The requested line and line count of an "offset exceeds file length"
/// message, when it is one.
pub open spec fn offset_exceeds_outcome(m: Seq<char>) -> Option<(usize, usize)> {
    let p = "Requested offset "@;
    let mid = " exceeds file length of "@;
    let suf = " lines"@;
    if !starts_with(m, p) {
        None
    } else {
        let a = m.skip(p.len() as int);
        let k = first_occ(a, mid);
        if k < 0 {
            None
        } else {
            let req = a.take(k);
            let rest = a.skip(k + mid.len());
            if !ends_with(rest, suf) {
                None
            } else {
                let tot = rest.take(rest.len() - suf.len());
                match (parse_usize_spec(req), parse_usize_spec(tot)) {
                    (Some(x), Some(y)) => Some((x, y)),
                    _ => None,
                }
            }
        }
    }
}

/// Parse `"Requested offset {n} exceeds file length of {m} lines"`.
pub fn parse_offset_exceeds_error(message: &str) -> (r: Option<(usize, usize)>)
    ensures
        r == offset_exceeds_outcome(message@),
{
    let m = chars_of(message);
    let p = chars_of("Requested offset ");
    let mid = chars_of(" exceeds file length of ");
    let suf = chars_of(" lines");
    if !starts_with_exec(m.as_slice(), p.as_slice()) {
        return None;
    }
    let a = slice_chars(m.as_slice(), p.len(), m.len());
    assert(a@ =~= m@.skip(p@.len() as int));
    assert(a@.skip(0) =~= a@);
    let k = match find_from(a.as_slice(), mid.as_slice(), 0) {
        Some(k) => k,
        None => {
            return None;
        },
    };
    proof {
        lemma_first_occ(a@, mid@);
    }
    let req = slice_chars(a.as_slice(), 0, k);
    assert(req@ =~= a@.take(k as int));
    let rest = slice_chars(a.as_slice(), k + mid.len(), a.len());
    assert(rest@ =~= a@.skip(k + mid@.len()));
    if !ends_with_exec(rest.as_slice(), suf.as_slice()) {
        return None;
    }
    let tot = slice_chars(rest.as_slice(), 0, rest.len() - suf.len());
    assert(tot@ =~= rest@.take(rest@.len() - suf@.len()));
    match (parse_usize(req.as_slice()), parse_usize(tot.as_slice())) {
        (Some(x), Some(y)) => Some((x, y)),
        _ => None,
    }
}

// ---------------------------------------------------------------------------
// Labels and limits
// ---------------------------------------------------------------------------

/// `line N`, `lines N-M` or `no lines`.
pub open spec fn line_label(c: ChunkView) -> Seq<char> {
    if c.displayed_line_count == 0 {
        "no lines"@
    } else if c.displayed_start_line == c.displayed_end_line {
        "line "@ + dec(c.displayed_start_line as nat)
    } else {
        "lines "@ + dec(c.displayed_start_line as nat) + seq!['-'] + dec(c.displayed_end_line as nat)
    }
}

/// The one-line summary of what a read shows.
pub open spec fn chunk_summary(c: ChunkView, complete: bool, range_limited: bool) -> Seq<char> {
    if complete {
        "complete ("@ + dec(c.total_lines) + " lines)"@
    } else if c.next_line_too_large {
        line_label(c) + " of "@ + dec(c.total_lines) + " shown"@
    } else if c.truncated {
        line_label(c) + " of "@ + dec(c.total_lines) + " (truncated to stay under the inline limit)"@
    } else if range_limited {
        line_label(c) + " of "@ + dec(c.total_lines) + " (requested range; more remains)"@
    } else {
        line_label(c) + " of "@ + dec(c.total_lines) + " (reached end; not complete file)"@
    }
}

/// Summarise what a read shows.
pub fn format_read_chunk_summary(chunk: &ReadFileChunk, complete: bool, range_limited: bool) -> (r: String)
    ensures
        r@ == chunk_summary(chunk_view(*chunk), complete, range_limited),
{
    let mut m: Vec<char> = Vec::new();
    if complete {
        push_str(&mut m, "complete (");
        push_dec(&mut m, chunk.total_lines as u64);
        push_str(&mut m, " lines)");
        assert(m@ =~= chunk_summary(chunk_view(*chunk), complete, range_limited));
        return string_from_chars(m.as_slice());
    }
    if chunk.displayed_line_count == 0 {
        push_str(&mut m, "no lines");
    } else if chunk.displayed_start_line == chunk.displayed_end_line {
        push_str(&mut m, "line ");
        push_dec(&mut m, chunk.displayed_start_line as u64);
    } else {
        push_str(&mut m, "lines ");
        push_dec(&mut m, chunk.displayed_start_line as u64);
        m.push('-');
        push_dec(&mut m, chunk.displayed_end_line as u64);
    }
    assert(m@ =~= line_label(chunk_view(*chunk)));
    push_str(&mut m, " of ");
    push_dec(&mut m, chunk.total_lines as u64);
    if chunk.next_line_too_large {
        push_str(&mut m, " shown");
    } else if chunk.truncated {
        push_str(&mut m, " (truncated to stay under the inline limit)");
    } else if range_limited {
        push_str(&mut m, " (requested range; more remains)");
    } else {
        push_str(&mut m, " (reached end; not complete file)");
    }
    assert(m@ =~= chunk_summary(chunk_view(*chunk), complete, range_limited));
    string_from_chars(m.as_slice())
}

/// The bytes of file content a read may show, given the preview limit of
/// a tool result: the limit less headroom for the surrounding message (more
/// with anchors), but never under the minimum.
pub open spec fn visible_limit(preview_limit: usize, anchors: bool) -> int {
    let headroom = if anchors {
        READ_FILE_BASE_HEADROOM_BYTES + READ_FILE_ANCHOR_HEADROOM_BYTES
    } else {
        READ_FILE_BASE_HEADROOM_BYTES as int
    };
    let rest = if preview_limit >= headroom { preview_limit - headroom } else { 0 };
    if rest >= READ_FILE_MIN_VISIBLE_CONTENT_BYTES { rest } else { READ_FILE_MIN_VISIBLE_CONTENT_BYTES as int }
}

/// The visible content limit of a read (see `visible_limit`).
pub fn read_file_visible_content_limit_bytes(preview_limit: usize, show_line_anchors: bool) -> (r: usize)
    ensures
        r == visible_limit(preview_limit, show_line_anchors),
{
    let extra_headroom = if show_line_anchors {
        READ_FILE_BASE_HEADROOM_BYTES + READ_FILE_ANCHOR_HEADROOM_BYTES
    } else {
        READ_FILE_BASE_HEADROOM_BYTES
    };
    let rest = preview_limit.saturating_sub(extra_headroom);
    if rest >= READ_FILE_MIN_VISIBLE_CONTENT_BYTES {
        rest
    } else {
        READ_FILE_MIN_VISIBLE_CONTENT_BYTES
    }
}

// ---------------------------------------------------------------------------
// Listing numbered lines
// ---------------------------------------------------------------------------

pub open spec fn pair_contents(v: Seq<(usize, String)>) -> Seq<Seq<char>> {
    Seq::new(v.len(), |i: int| v[i].1@)
}

/// Numbered lines in anchored form: line `i` of the list is shown as
/// `{n}:{anchor}|{content}`, its anchor taken over the listed lines only.
pub open spec fn anchored_listing(v: Seq<(usize, String)>) -> Seq<Seq<char>> {
    let cs = pair_contents(v);
    Seq::new(v.len(), |i: int| hashline(v[i].0 as nat, cs[i], prefix_state(cs, (i + 1) as nat)))
}

/// Format numbered lines as anchored lines, or as the raw contents when
/// anchors are off; lines are joined with line feeds and none is dropped.
pub fn format_lines_with_numbers(lines: &[(usize, String)], show_anchors: bool) -> (r: String)
    ensures
        r@ == join(if show_anchors { anchored_listing(lines@) } else { pair_contents(lines@) }, seq!['\n']),
{
    let ghost cs = pair_contents(lines@);
    let mut out: Vec<Vec<char>> = Vec::new();
    let mut state: u32 = FNV_OFFSET;
    let mut i: usize = 0;
    while i < lines.len()
        invariant
            i <= lines@.len(),
            cs == pair_contents(lines@),
            state == prefix_state(cs, i as nat),
            seqs_of(out@) == (if show_anchors { anchored_listing(lines@) } else { cs }).take(i as int),
        decreases lines@.len() - i,
    {
        let (n, content) = &lines[i];
        let c = chars_of(content.as_str());
        assert(c@ == cs[i as int]);
        let ghost before = seqs_of(out@);
        let h = hashline_chars(*n, c.as_slice(), &mut state);
        proof {
            assert(prefix_state(cs, (i + 1) as nat) == prefix_step(prefix_state(cs, i as nat), cs[i as int]));
        }
        if show_anchors {
            out.push(h);
            assert(seqs_of(out@) =~= before.push(anchored_listing(lines@)[i as int]));
        } else {
            out.push(c);
            assert(seqs_of(out@) =~= before.push(cs[i as int]));
        }
        assert(seqs_of(out@) =~= (if show_anchors { anchored_listing(lines@) } else { cs }).take(i + 1));
        i += 1;
    }
    assert((if show_anchors { anchored_listing(lines@) } else { cs }).take(lines@.len() as int) =~= (if show_anchors { anchored_listing(lines@) } else { cs }));
    let nl = ['\n'];
    assert(nl@ =~= seq!['\n']);
    let j = join_chars(&out, &nl);
    string_from_chars(j.as_slice())
}

pub const LISTING_HEADER: &'static str = "[File Content - Line numbers are for reference only]";
pub const LISTING_RULE: &'static str = "─────────────────────────────────────────────────────";
pub const LISTING_NOTE: &'static str = "(Note: Line numbers and '|' symbols are NOT part of the code)";

/// Numbered lines framed by a header and a footer: each line as
/// `{n:>4} | {content}`.
pub open spec fn numbered_listing(v: Seq<(usize, String)>) -> Seq<Seq<char>> {
    seq![LISTING_HEADER@, LISTING_RULE@] + Seq::new(v.len(), |i: int| pad_left(dec(v[i].0 as nat), 4) + " | "@ + v[i].1@) + seq![LISTING_RULE@, LISTING_NOTE@]
}

/// Format numbered lines for display: with line numbers and a frame, or as
/// the raw contents; nothing for no lines.
pub fn format_numbered_lines(lines: &[(usize, String)], show_line_numbers: bool) -> (r: String)
    ensures
        r@ == if lines@.len() == 0 {
            Seq::empty()
        } else if show_line_numbers {
            join(numbered_listing(lines@), seq!['\n'])
        } else {
            join(pair_contents(lines@), seq!['\n'])
        },
{
    if lines.len() == 0 {
        return String::new();
    }
    let mut out: Vec<Vec<char>> = Vec::new();
    if !show_line_numbers {
        let mut i: usize = 0;
        while i < lines.len()
            invariant
                i <= lines@.len(),
                seqs_of(out@) == pair_contents(lines@).take(i as int),
            decreases lines@.len() - i,
        {
            let c = chars_of(lines[i].1.as_str());
            let ghost before = seqs_of(out@);
            out.push(c);
            assert(seqs_of(out@) =~= before.push(pair_contents(lines@)[i as int]));
            assert(seqs_of(out@) =~= pair_contents(lines@).take(i + 1));
            i += 1;
        }
        assert(pair_contents(lines@).take(lines@.len() as int) =~= pair_contents(lines@));
    } else {
        out.push(chars_of(LISTING_HEADER));
        out.push(chars_of(LISTING_RULE));
        let ghost body = Seq::new(lines@.len(), |i: int| pad_left(dec(lines@[i].0 as nat), 4) + " | "@ + lines@[i].1@);
        assert(seqs_of(out@) =~= seq![LISTING_HEADER@, LISTING_RULE@]);
        let mut i: usize = 0;
        while i < lines.len()
            invariant
                i <= lines@.len(),
                body == Seq::new(lines@.len(), |i: int| pad_left(dec(lines@[i].0 as nat), 4) + " | "@ + lines@[i].1@),
                seqs_of(out@) == seq![LISTING_HEADER@, LISTING_RULE@] + body.take(i as int),
            decreases lines@.len() - i,
        {
            let mut l: Vec<char> = Vec::new();
            push_dec_padded(&mut l, lines[i].0 as u64, 4);
            push_str(&mut l, " | ");
            push_str(&mut l, lines[i].1.as_str());
            assert(l@ =~= body[i as int]);
            let ghost before = seqs_of(out@);
            out.push(l);
            assert(seqs_of(out@) =~= before.push(body[i as int]));
            assert(seqs_of(out@) =~= seq![LISTING_HEADER@, LISTING_RULE@] + body.take(i + 1));
            i += 1;
        }
        assert(body.take(lines@.len() as int) =~= body);
        let ghost b2 = seqs_of(out@);
        out.push(chars_of(LISTING_RULE));
        out.push(chars_of(LISTING_NOTE));
        assert(seqs_of(out@) =~= numbered_listing(lines@));
    }
    let nl = ['\n'];
    assert(nl@ =~= seq!['\n']);
    let j = join_chars(&out, &nl);
    string_from_chars(j.as_slice())
}

// ---------------------------------------------------------------------------
// What a read reports
// ---------------------------------------------------------------------------

/// The shown window covers the whole file.
pub open spec fn read_complete(c: ChunkView) -> bool {
    !c.truncated && !c.next_line_too_large && (c.total_lines == 0 || (c.displayed_start_line == 1 && c.displayed_end_line == c.total_lines))
}

/// The read stopped at the end of the requested range, before the end of
/// the file.
pub open spec fn read_range_limited(c: ChunkView) -> bool {
    c.total_lines > 0 && c.displayed_end_line < c.total_lines && !c.truncated && !c.next_line_too_large
}

/// The size of the next chunk to suggest: the requested size when it was
/// positive, else as many lines as were shown, at least one.
pub open spec fn next_chunk_size(size: Option<isize>, shown: nat) -> int {
    let s: int = match size {
        Some(sz) => if sz > 0 { sz as int } else { shown as int },
        None => shown as int,
    };
    if s >= 1 { s } else { 1 }
}

/// The chunk after a range-limited read is given where to continue.
pub open spec fn with_continuation(c: ChunkView, size: Option<isize>) -> ChunkView {
    if read_range_limited(c) && c.next_start_line is None {
        let ns = c.displayed_end_line + 1;
        let nsz = next_chunk_size(size, c.displayed_line_count);
        ChunkView {
            next_start_line: Some(ns),
            suggested_end_line: Some(if ns + nsz - 1 <= c.total_lines { ns + nsz - 1 } else { c.total_lines as int }),
            ..c
        }
    } else {
        c
    }
}

/// The notes after the summary: where the next chunk starts, or how to
/// read a line too long to show.
pub open spec fn read_notes(c: ChunkView, range_limited: bool, size: Option<isize>, path: Seq<char>, anchors: bool, limit: nat) -> Seq<Seq<char>> {
    let next: Seq<Seq<char>> = if (c.truncated || range_limited) && !c.next_line_too_large && c.next_start_line is Some {
        let nsz = if range_limited { next_chunk_size(size, c.displayed_line_count) } else if c.displayed_line_count >= 1 { c.displayed_line_count as int } else { 1 };
        seq!["Next chunk: workspace__readFile({\"path\": \""@ + path + "\", \"offset\": "@ + dec(c.next_start_line->0 as nat) + ", \"size\": "@ + dec(nsz as nat) + "})"@]
    } else {
        Seq::empty()
    };
    let wide: Seq<Seq<char>> = if c.next_line_too_large {
        let target = match c.next_start_line {
            Some(t) => t,
            None => c.displayed_start_line,
        };
        let shown = c.hard_cut_chars_shown;
        let base = if shown > 0 {
            "Line "@ + dec(target as nat) + " is too large to fit in one response ("@ + dec(shown) + " characters already shown as a hard-cut preview). To read more of that line, run a shell command to extract a character slice, e.g.: `(Get-Content -Path \""@ + path + "\" -Raw -Encoding UTF8).Substring("@ + dec(shown) + ")` on Windows (char offset), or `cut -c"@ + dec(shown + 1) + seq!['-'] + dec(shown + limit / 3) + " \""@ + path + "\"` on Unix (char offset)."@
        } else {
            "The next unread line is too large to show safely as a complete line. Inspect that line directly with workspace__readFile({\"path\": \""@ + path + "\", \"offset\": "@ + dec(target as nat) + ", \"size\": 1})."@
        };
        let with_anchor_note = if anchors { base + " If that still truncates, rerun the same 1-line range without showLineAnchors."@ } else { base };
        seq![if shown == 0 { with_anchor_note + " Do not rerun workspace__readFile on a broader range until you have narrowed the line range."@ } else { with_anchor_note }]
    } else {
        Seq::empty()
    };
    next + wide
}

/// What a read reports about the chunk it shows.
pub struct ReadSummary {
    pub chunk: ReadFileChunk,
    pub complete: bool,
    pub range_limited: bool,
    pub summary: String,
    pub notes: String,
}

/// Decide how a read chunk is reported: whether it is complete or stopped
/// at the requested range (and then where to continue), the summary line,
/// and the notes after it (empty, or a blank line and the notes).
pub fn summarize_read(chunk: ReadFileChunk, size_opt: Option<isize>, path: &str, show_line_anchors: bool, visible_content_limit_bytes: usize) -> (r: ReadSummary)
    requires
        chunk.hard_cut_chars_shown as int + visible_content_limit_bytes as int / 3 < usize::MAX,
    ensures
        r.complete == read_complete(chunk_view(chunk)),
        r.range_limited == read_range_limited(chunk_view(chunk)),
        chunk_view(r.chunk) == with_continuation(chunk_view(chunk), size_opt),
        r.summary@ == chunk_summary(chunk_view(r.chunk), r.complete, r.range_limited),
        r.notes@ == (if read_notes(chunk_view(r.chunk), r.range_limited, size_opt, path@, show_line_anchors, visible_content_limit_bytes as nat).len() == 0 {
            Seq::<char>::empty()
        } else {
            "\n\n"@ + join(read_notes(chunk_view(r.chunk), r.range_limited, size_opt, path@, show_line_anchors, visible_content_limit_bytes as nat), seq!['\n'])
        }),
{
    let mut chunk = chunk;
    let ghost c0 = chunk_view(chunk);
    let complete = !chunk.truncated && !chunk.next_line_too_large && (chunk.total_lines == 0 || (chunk.displayed_start_line == 1 && chunk.displayed_end_line == chunk.total_lines));
    let range_limited = chunk.total_lines > 0 && chunk.displayed_end_line < chunk.total_lines && !chunk.truncated && !chunk.next_line_too_large;
    let sized: usize = match size_opt {
        Some(sz) => if sz > 0 { sz as usize } else { chunk.displayed_line_count },
        None => chunk.displayed_line_count,
    };
    let next_size: usize = if sized >= 1 { sized } else { 1 };
    if range_limited && chunk.next_start_line.is_none() {
        let next_start = chunk.displayed_end_line + 1;
        let e: u128 = next_start as u128 + next_size as u128 - 1;
        chunk.next_start_line = Some(next_start);
        chunk.suggested_end_line = Some(if e <= chunk.total_lines as u128 { e as usize } else { chunk.total_lines });
    }
    let ghost c = chunk_view(chunk);
    assert(c == with_continuation(c0, size_opt));
    let summary = format_read_chunk_summary(&chunk, complete, range_limited);
    let mut notes: Vec<Vec<char>> = Vec::new();
    if (chunk.truncated || range_limited) && !chunk.next_line_too_large {
        if let Some(next_start_line) = chunk.next_start_line {
            let nsz: usize = if range_limited { next_size } else if chunk.displayed_line_count >= 1 { chunk.displayed_line_count } else { 1 };
            let mut m: Vec<char> = Vec::new();
            push_str(&mut m, "Next chunk: workspace__readFile({\"path\": \"");
            push_str(&mut m, path);
            push_str(&mut m, "\", \"offset\": ");
            push_dec(&mut m, next_start_line as u64);
            push_str(&mut m, ", \"size\": ");
            push_dec(&mut m, nsz as u64);
            push_str(&mut m, "})");
            assert(m@ =~= "Next chunk: workspace__readFile({\"path\": \""@ + path@ + "\", \"offset\": "@ + dec(next_start_line as nat) + ", \"size\": "@ + dec(nsz as nat) + "})"@);
            notes.push(m);
            assert(seqs_of(notes@) =~= seq![m@]);
        }
    }
    let ghost first = seqs_of(notes@);
    if chunk.next_line_too_large {
        let target = match chunk.next_start_line {
            Some(t) => t,
            None => chunk.displayed_start_line,
        };
        let shown = chunk.hard_cut_chars_shown;
        let mut m: Vec<char> = Vec::new();
        if shown > 0 {
            push_str(&mut m, "Line ");
            push_dec(&mut m, target as u64);
            push_str(&mut m, " is too large to fit in one response (");
            push_dec(&mut m, shown as u64);
            push_str(&mut m, " characters already shown as a hard-cut preview). To read more of that line, run a shell command to extract a character slice, e.g.: `(Get-Content -Path \"");
            push_str(&mut m, path);
            push_str(&mut m, "\" -Raw -Encoding UTF8).Substring(");
            push_dec(&mut m, shown as u64);
            push_str(&mut m, ")` on Windows (char offset), or `cut -c");
            push_dec(&mut m, (shown + 1) as u64);
            m.push('-');
            push_dec(&mut m, (shown + visible_content_limit_bytes / 3) as u64);
            push_str(&mut m, " \"");
            push_str(&mut m, path);
            push_str(&mut m, "\"` on Unix (char offset).");
        } else {
            push_str(&mut m, "The next unread line is too large to show safely as a complete line. Inspect that line directly with workspace__readFile({\"path\": \"");
            push_str(&mut m, path);
            push_str(&mut m, "\", \"offset\": ");
            push_dec(&mut m, target as u64);
            push_str(&mut m, ", \"size\": 1}).");
        }
        if show_line_anchors {
            push_str(&mut m, " If that still truncates, rerun the same 1-line range without showLineAnchors.");
        }
        if shown == 0 {
            push_str(&mut m, " Do not rerun workspace__readFile on a broader range until you have narrowed the line range.");
        }
        proof {
            let base = if shown > 0 {
                "Line "@ + dec(target as nat) + " is too large to fit in one response ("@ + dec(shown as nat) + " characters already shown as a hard-cut preview). To read more of that line, run a shell command to extract a character slice, e.g.: `(Get-Content -Path \""@ + path@ + "\" -Raw -Encoding UTF8).Substring("@ + dec(shown as nat) + ")` on Windows (char offset), or `cut -c"@ + dec((shown + 1) as nat) + seq!['-'] + dec((shown + visible_content_limit_bytes as nat / 3) as nat) + " \""@ + path@ + "\"` on Unix (char offset)."@
            } else {
                "The next unread line is too large to show safely as a complete line. Inspect that line directly with workspace__readFile({\"path\": \""@ + path@ + "\", \"offset\": "@ + dec(target as nat) + ", \"size\": 1})."@
            };
            let wa = if show_line_anchors { base + " If that still truncates, rerun the same 1-line range without showLineAnchors."@ } else { base };
            assert(m@ =~= if shown == 0 { wa + " Do not rerun workspace__readFile on a broader range until you have narrowed the line range."@ } else { wa });
        }
        let ghost before = seqs_of(notes@);
        notes.push(m);
        assert(seqs_of(notes@) =~= before.push(m@));
    }
    let ghost want = read_notes(c, range_limited, size_opt, path@, show_line_anchors, visible_content_limit_bytes as nat);
    assert(seqs_of(notes@) =~= want);
    let mut out: Vec<char> = Vec::new();
    if notes.len() > 0 {
        push_str(&mut out, "\n\n");
        let nl = ['\n'];
        assert(nl@ =~= seq!['\n']);
        let j = join_chars(&notes, &nl);
        push_chars(&mut out, j.as_slice());
    }
    ReadSummary {
        chunk,
        complete,
        range_limited,
        summary,
        notes: string_from_chars(out.as_slice()),
    }
}

} // verus!
