//! Searching the contents of one file: which lines a regex touches (a
//! match that runs over several lines marks each of them), the matching
//! lines with their anchors, and the page of results that is shown.
use vstd::prelude::*;
use crate::text::{lines_of, chars_of, split_lines, seqs_of, dec, push_dec, push_str, string_from_chars};
use crate::search::{is_char_boundary, char_index_of, char_index_at, lemma_byte_len_take_mono, regex_find_all, spans_of, TextRegex};
use crate::edit::string_views;
use crate::hashline::{FNV_OFFSET, prefix_state, anchor_at, anchor_chars, prefix_step_chars};

verus! {

// ---------------------------------------------------------------------------
// Which lines a set of matches touches
// ---------------------------------------------------------------------------

/// The number of line feeds in `s`.
pub open spec fn newline_count(s: Seq<char>) -> nat
    decreases s.len(),
{
    if s.len() == 0 {
        0
    } else {
        newline_count(s.drop_last()) + if s.last() == '\n' { 1nat } else { 0nat }
    }
}

/// The 0-based line of `s` that holds character `i`; a position after
/// the final line ending still belongs to the last line.
pub open spec fn line_at(s: Seq<char>, i: int) -> int {
    let c = newline_count(s.take(i)) as int;
    let last = lines_of(s).len() - 1;
    if c < last { c } else { last }
}

/// The first and the last line touched by a match given as byte offsets
/// `(start, end)`; an empty match touches the line of its start.
pub open spec fn span_lines(s: Seq<char>, span: (usize, usize)) -> (int, int) {
    let cs = char_index_of(s, span.0 as int);
    let ce = char_index_of(s, span.1 as int);
    (line_at(s, cs), line_at(s, if cs == ce { cs } else { ce - 1 }))
}

/// Every span is ordered and falls on character boundaries of `s`.
pub open spec fn valid_spans(s: Seq<char>, spans: Seq<(usize, usize)>) -> bool {
    forall|j: int|
        0 <= j < spans.len() ==> #[trigger] spans[j].0 <= spans[j].1 && is_char_boundary(s, spans[j].0 as int)
            && is_char_boundary(s, spans[j].1 as int)
}

/// Line `k` lies between the first and last line of one of the first
/// `upto` spans.
pub open spec fn touched_upto(s: Seq<char>, spans: Seq<(usize, usize)>, upto: int, k: int) -> bool {
    exists|j: int|
        0 <= j < upto && span_lines(s, #[trigger] spans[j]).0 <= k <= span_lines(s, spans[j]).1
}

/// Line `k` is touched by some span.
pub open spec fn touched(s: Seq<char>, spans: Seq<(usize, usize)>, k: int) -> bool {
    touched_upto(s, spans, spans.len() as int, k)
}

proof fn lemma_newline_count_mono(s: Seq<char>, a: int, b: int)
    requires
        0 <= a <= b <= s.len(),
    ensures
        newline_count(s.take(a)) <= newline_count(s.take(b)),
    decreases b - a,
{
    if a < b {
        assert(s.take(b).drop_last() =~= s.take(b - 1));
        lemma_newline_count_mono(s, a, b - 1);
    }
}

proof fn lemma_touched_step(
    s: Seq<char>,
    spans: Seq<(usize, usize)>,
    j: int,
    before: Seq<bool>,
    after: Seq<bool>,
    a: int,
    b: int,
)
    requires
        0 <= j < spans.len(),
        span_lines(s, spans[j]) == (a, b),
        before.len() == after.len(),
        forall|u: int| 0 <= u < before.len() ==> (#[trigger] before[u] <==> touched_upto(s, spans, j, u)),
        forall|u: int| 0 <= u < after.len() ==> (#[trigger] after[u] <==> (before[u] || (a <= u <= b))),
    ensures
        forall|u: int| 0 <= u < after.len() ==> (#[trigger] after[u] <==> touched_upto(s, spans, j + 1, u)),
{
    assert forall|u: int| 0 <= u < after.len() implies (#[trigger] after[u] <==> touched_upto(s, spans, j + 1, u)) by {
        if touched_upto(s, spans, j + 1, u) {
            let w = choose|w: int| 0 <= w < j + 1 && span_lines(s, #[trigger] spans[w]).0 <= u <= span_lines(s, spans[w]).1;
            if w < j {
                assert(touched_upto(s, spans, j, u));
            }
        }
        if before[u] {
            let w = choose|w: int| 0 <= w < j && span_lines(s, #[trigger] spans[w]).0 <= u <= span_lines(s, spans[w]).1;
            assert(0 <= w < j + 1);
        }
        if a <= u <= b {
            assert(span_lines(s, spans[j]).0 <= u <= span_lines(s, spans[j]).1);
        }
    }
}

/// The 0-based indices, in increasing order, of the lines of `content`
/// that some span touches.
pub fn matched_line_indices(content: &str, spans: &Vec<(usize, usize)>) -> (r: Vec<usize>)
    requires
        valid_spans(content@, spans@),
    ensures
        forall|a: int, b: int| 0 <= a < b < r.len() ==> r[a] < r[b],
        forall|i: int|
            0 <= i < r.len() ==> r[i] < lines_of(content@).len() && touched(content@, spans@, #[trigger] r[i] as int),
        forall|k: int|
            0 <= k < lines_of(content@).len() && touched(content@, spans@, k) ==> r@.contains(k as usize),
{
    let ghost s = content@;
    let chars = chars_of(content);
    let lines = split_lines(chars.as_slice());
    let n = lines.len();
    proof {
        assert(seqs_of(lines@).len() == lines@.len());
    }
    let mut out: Vec<usize> = Vec::new();
    if n == 0 {
        return out;
    }
    // prefix counts of line feeds
    let mut nl: Vec<usize> = Vec::new();
    nl.push(0);
    proof {
        assert(s.take(0) =~= Seq::<char>::empty());
    }
    let mut i: usize = 0;
    while i < chars.len()
        invariant
            chars@ == s,
            i <= chars.len(),
            nl.len() == i + 1,
            forall|t: int| 0 <= t <= i ==> #[trigger] nl[t] == newline_count(s.take(t)) && nl[t] <= t,
        decreases chars.len() - i,
    {
        proof {
            assert(s.take(i + 1).drop_last() =~= s.take(i as int));
        }
        let c = if chars[i] == '\n' { nl[i] + 1 } else { nl[i] };
        nl.push(c);
        i += 1;
    }
    let mut marks: Vec<bool> = Vec::new();
    let mut t: usize = 0;
    while t < n
        invariant
            t <= n,
            marks.len() == t,
            forall|u: int| 0 <= u < t ==> !(#[trigger] marks[u]),
        decreases n - t,
    {
        marks.push(false);
        t += 1;
    }
    let mut j: usize = 0;
    while j < spans.len()
        invariant
            chars@ == s,
            content@ == s,
            valid_spans(s, spans@),
            n == lines_of(s).len(),
            n > 0,
            nl.len() == chars.len() + 1,
            forall|t: int| 0 <= t <= chars.len() ==> #[trigger] nl[t] == newline_count(s.take(t)),
            j <= spans.len(),
            marks.len() == n,
            forall|u: int| 0 <= u < n ==> (#[trigger] marks[u] <==> touched_upto(s, spans@, j as int, u)),
        decreases spans.len() - j,
    {
        let (sb, eb) = spans[j];
        assert(spans@[j as int].0 <= spans@[j as int].1);
        let cs = char_index_at(chars.as_slice(), sb);
        let ce = char_index_at(chars.as_slice(), eb);
        proof {
            if ce < cs {
                lemma_byte_len_take_mono(s, ce as int, cs as int);
            }
        }
        let last = if cs == ce { cs } else { ce - 1 };
        proof {
            lemma_newline_count_mono(s, cs as int, last as int);
        }
        let a = if nl[cs] < n - 1 { nl[cs] } else { n - 1 };
        let b = if nl[last] < n - 1 { nl[last] } else { n - 1 };
        assert(span_lines(s, spans@[j as int]) == (a as int, b as int));
        let ghost before = marks@;
        let mut k = a;
        while k <= b
            invariant
                a <= k,
                b < n,
                k <= b + 1,
                marks.len() == n,
                forall|u: int| 0 <= u < n ==> (#[trigger] marks[u] <==> (before[u] || (a <= u < k))),
            decreases b + 1 - k,
        {
            marks.set(k, true);
            k += 1;
        }
        proof {
            lemma_touched_step(s, spans@, j as int, before, marks@, a as int, b as int);
        }
        j += 1;
    }
    let mut t: usize = 0;
    while t < n
        invariant
            t <= n,
            n == lines_of(s).len(),
            content@ == s,
            marks.len() == n,
            forall|u: int| 0 <= u < n ==> (#[trigger] marks[u] <==> touched(s, spans@, u)),
            forall|a: int, b: int| 0 <= a < b < out.len() ==> out[a] < out[b],
            forall|i: int| 0 <= i < out.len() ==> #[trigger] out[i] < t && marks[out[i] as int],
            forall|u: int| 0 <= u < t && #[trigger] marks[u] ==> out@.contains(u as usize),
        decreases n - t,
    {
        let ghost old_out = out@;
        if marks[t] {
            out.push(t);
            assert(out@[out.len() - 1] == t);
            assert forall|u: usize| old_out.contains(u) implies out@.contains(u) by {
                let w = choose|w: int| 0 <= w < old_out.len() && old_out[w] == u;
                assert(out@[w] == u);
            }
        }
        t += 1;
    }
    assert forall|i: int| 0 <= i < out.len() implies out[i] < lines_of(content@).len() && touched(
        content@,
        spans@,
        #[trigger] out[i] as int,
    ) by {
        assert(marks[out[i] as int]);
    }
    assert forall|k: int| 0 <= k < lines_of(content@).len() && touched(content@, spans@, k) implies out@.contains(
        k as usize,
    ) by {
        assert(marks[k]);
    }
    out
}

/// Line `k` is in `r` exactly when some span touches it, and `r` lists
/// such lines once each, in increasing order.
pub open spec fn is_matched_line_list(s: Seq<char>, spans: Seq<(usize, usize)>, r: Seq<usize>) -> bool {
    &&& forall|a: int, b: int| 0 <= a < b < r.len() ==> r[a] < r[b]
    &&& forall|i: int| 0 <= i < r.len() ==> r[i] < lines_of(s).len() && touched(s, spans, #[trigger] r[i] as int)
    &&& forall|k: int| 0 <= k < lines_of(s).len() && touched(s, spans, k) ==> r.contains(k as usize)
}

/// The lines of `content` that the matches of `re` touch, in increasing
/// order, each once.
pub fn collect_matched_line_indices(content: &str, re: &TextRegex) -> (r: Vec<usize>)
    ensures
        valid_spans(content@, spans_of(*re, content@)),
        is_matched_line_list(content@, spans_of(*re, content@), r@),
{
    let spans = regex_find_all(re, content);
    let r = matched_line_indices(content, &spans);
    assert(is_matched_line_list(content@, spans@, r@));
    r
}

// ---------------------------------------------------------------------------
// The matching lines and the page shown
// ---------------------------------------------------------------------------

/// One matching line: its 1-based number, its anchor when anchors were
/// asked for, and its text.
pub struct GrepLine {
    pub line: usize,
    pub anchor: Option<String>,
    pub text: String,
}

/// `m` is the record of line `k` (0-based) of `lines`.
pub open spec fn is_grep_line(m: GrepLine, lines: Seq<Seq<char>>, k: int, show_hashes: bool) -> bool {
    &&& m.line == k + 1
    &&& m.text@ == lines[k]
    &&& match m.anchor {
        Some(a) => show_hashes && a@ == anchor_at(lines, k),
        None => !show_hashes,
    }
}

/// The record of each listed line of `content`, in the order listed; the
/// anchor of a line depends on every line before it, listed or not.
pub fn grep_lines(content: &str, idx: &Vec<usize>, show_hashes: bool) -> (r: Vec<GrepLine>)
    requires
        forall|a: int, b: int| 0 <= a < b < idx.len() ==> idx[a] < idx[b],
        forall|i: int| 0 <= i < idx.len() ==> #[trigger] idx[i] < lines_of(content@).len(),
    ensures
        r.len() == idx.len(),
        forall|i: int| 0 <= i < r.len() ==> is_grep_line(#[trigger] r[i], lines_of(content@), idx[i] as int, show_hashes),
{
    let chars = chars_of(content);
    let lines = split_lines(chars.as_slice());
    let ghost ls = seqs_of(lines@);
    assert(ls == lines_of(content@));
    let mut out: Vec<GrepLine> = Vec::new();
    let mut state: u32 = FNV_OFFSET;
    let mut p: usize = 0;
    let mut i: usize = 0;
    while i < lines.len()
        invariant
            ls == seqs_of(lines@),
            ls == lines_of(content@),
            ls.len() == lines@.len(),
            i <= lines.len(),
            p <= idx.len(),
            out.len() == p,
            state == prefix_state(ls, i as nat),
            forall|a: int, b: int| 0 <= a < b < idx.len() ==> idx[a] < idx[b],
            forall|j: int| 0 <= j < idx.len() ==> #[trigger] idx[j] < ls.len(),
            forall|q: int| 0 <= q < p ==> #[trigger] idx[q] < i,
            p < idx.len() ==> idx[p as int] >= i,
            forall|q: int| 0 <= q < p ==> is_grep_line(#[trigger] out[q], ls, idx[q] as int, show_hashes),
        decreases lines.len() - i,
    {
        assert(ls[i as int] == lines@[i as int]@);
        if p < idx.len() && idx[p] == i {
            let text = string_from_chars(lines[i].as_slice());
            let anchor = if show_hashes {
                let a = anchor_chars(lines[i].as_slice(), &mut state);
                Some(string_from_chars(a.as_slice()))
            } else {
                state = prefix_step_chars(state, lines[i].as_slice());
                None
            };
            let m = GrepLine { line: i + 1, anchor, text };
            assert(is_grep_line(m, ls, idx[p as int] as int, show_hashes));
            out.push(m);
            p += 1;
            proof {
                if p < idx.len() {
                    assert(idx[(p - 1) as int] < idx[p as int]);
                }
            }
        } else {
            state = prefix_step_chars(state, lines[i].as_slice());
        }
        i += 1;
    }
    proof {
        if p < idx.len() {
            assert(idx[p as int] < ls.len());
        }
    }
    out
}

/// The text of one shown match.
pub open spec fn grep_line_text(m: GrepLine) -> Seq<char> {
    match m.anchor {
        Some(a) => dec(m.line as nat) + seq![':'] + a@ + seq!['|'] + m.text@ + seq!['\n'],
        None => "Line "@ + dec(m.line as nat) + ": "@ + m.text@ + seq!['\n'],
    }
}

/// The shown matches, one line of text each.
pub open spec fn grep_page_text(page: Seq<GrepLine>) -> Seq<char>
    decreases page.len(),
{
    if page.len() == 0 {
        Seq::<char>::empty()
    } else {
        grep_page_text(page.drop_last()) + grep_line_text(page.last())
    }
}

/// The matches from `offset` on, at most `limit` of them.
pub open spec fn page_of<T>(all: Seq<T>, offset: int, limit: int) -> Seq<T> {
    if offset >= all.len() {
        Seq::empty()
    } else if offset + limit <= all.len() {
        all.subrange(offset, offset + limit)
    } else {
        all.subrange(offset, all.len() as int)
    }
}

/// The reply to a search of one file, given every match, the page asked
/// for and whether anchors were shown.
pub open spec fn grep_file_report(
    query: Seq<char>,
    display_path: Seq<char>,
    ignore_case: bool,
    language: Seq<char>,
    all: Seq<GrepLine>,
    offset: nat,
    limit: nat,
    show_hashes: bool,
) -> Seq<char> {
    let total = all.len();
    let page = page_of(all, offset as int, limit as int);
    if total == 0 {
        "**🔍 Search Results: No matches found**\n\nPattern: `"@ + query + "`\nFile: `"@ + display_path
            + "`\nOptions: "@ + (if ignore_case { "case-insensitive"@ } else { "case-sensitive"@ }) + seq!['\n']
    } else {
        "**🔍 Search Results: "@ + dec(total) + " match(es) found**\n\n"@ + "File: `"@ + display_path
            + "`\nPattern: `"@ + query + "`\n\n"@ + "```"@ + language + seq!['\n'] + grep_page_text(page)
            + "```\n\n"@ + page_note(offset, page.len(), total, limit) + (if show_hashes {
            "Use the returned anchors with editFiles. For range replacement/deletion, also copy endAnchor from the exact end line.\n"@
        } else {
            "If you plan to use editFiles next, run again with `showLineAnchors: true` to get anchors.\n"@
        })
    }
}

/// The first and one-past-last index of the page from `offset` holding at
/// most `limit` of `total` matches.
pub fn page_bounds(total: usize, offset: usize, limit: usize) -> (r: (usize, usize))
    ensures
        r.0 == (if offset < total { offset } else { total }),
        r.1 == (if offset as int + limit as int <= total as int { (offset + limit) as usize } else { total }),
        r.0 <= r.1 <= total,
        r.1 as int - r.0 as int <= limit,
{
    if offset >= total {
        (total, total)
    } else if limit <= total - offset {
        (offset, offset + limit)
    } else {
        (offset, total)
    }
}

pub proof fn lemma_page_of_bounds<T>(all: Seq<T>, offset: int, limit: int, a: int, b: int)
    requires
        offset >= 0,
        limit >= 0,
        a == (if offset < all.len() { offset } else { all.len() as int }),
        b == (if offset + limit <= all.len() { offset + limit } else { all.len() as int }),
    ensures
        page_of(all, offset, limit) == all.subrange(a, b),
{
    if offset >= all.len() {
        assert(all.subrange(a, b) =~= Seq::<T>::empty());
    }
}

/// The note under the shown matches: where the page ends and, when more
/// remain, the offset of the next page.
pub open spec fn page_note(offset: nat, shown: nat, total: nat, limit: nat) -> Seq<char> {
    if offset + shown < total {
        "*(Showing "@ + dec(offset + 1) + " to "@ + dec(offset + shown) + " of "@ + dec(total)
            + " total matches. Call search with offset: "@ + dec(offset + limit) + " to see more)*\n\n"@
    } else if offset > 0 {
        "*(Showing "@ + dec(offset + 1) + " to "@ + dec(offset + shown) + " of "@ + dec(total) + " total matches)*\n\n"@
    } else {
        Seq::<char>::empty()
    }
}

fn push_page_note(out: &mut Vec<char>, offset: usize, shown: usize, total: usize, limit: usize)
    requires
        offset as int + (limit as int) < usize::MAX,
        shown <= limit,
    ensures
        final(out)@ == old(out)@ + page_note(offset as nat, shown as nat, total as nat, limit as nat),
{
    if offset + shown < total {
        push_str(out, "*(Showing ");
        push_dec(out, (offset + 1) as u64);
        push_str(out, " to ");
        push_dec(out, (offset + shown) as u64);
        push_str(out, " of ");
        push_dec(out, total as u64);
        push_str(out, " total matches. Call search with offset: ");
        push_dec(out, (offset + limit) as u64);
        push_str(out, " to see more)*\n\n");
        assert(out@ =~= old(out)@ + ("*(Showing "@ + dec((offset + 1) as nat) + " to "@ + dec((offset + shown) as nat) + " of "@ + dec(total as nat)
            + " total matches. Call search with offset: "@ + dec((offset + limit) as nat) + " to see more)*\n\n"@));
    } else if offset > 0 {
        push_str(out, "*(Showing ");
        push_dec(out, (offset + 1) as u64);
        push_str(out, " to ");
        push_dec(out, (offset + shown) as u64);
        push_str(out, " of ");
        push_dec(out, total as u64);
        push_str(out, " total matches)*\n\n");
        assert(out@ =~= old(out)@ + ("*(Showing "@ + dec((offset + 1) as nat) + " to "@ + dec((offset + shown) as nat) + " of "@ + dec(total as nat) + " total matches)*\n\n"@));
    } else {
        assert(out@ =~= old(out)@ + Seq::<char>::empty());
    }
}

fn push_grep_line(out: &mut Vec<char>, m: &GrepLine)
    ensures
        final(out)@ == old(out)@ + grep_line_text(*m),
{
    match &m.anchor {
        Some(a) => {
            push_dec(out, m.line as u64);
            out.push(':');
            push_str(out, a.as_str());
            out.push('|');
        },
        None => {
            push_str(out, "Line ");
            push_dec(out, m.line as u64);
            push_str(out, ": ");
        },
    }
    push_str(out, m.text.as_str());
    out.push('\n');
    assert(out@ =~= old(out)@ + grep_line_text(*m));
}

/// The reply to a search of one file: a "no matches" notice with the
/// options used, or the page of matches in a code block, a paging note
/// and a hint about anchors.
pub fn format_grep_file_report(
    query: &str,
    display_path: &str,
    ignore_case: bool,
    language: &str,
    all: &[GrepLine],
    offset: usize,
    limit: usize,
    show_hashes: bool,
) -> (r: String)
    requires
        offset as int + (limit as int) < usize::MAX,
    ensures
        r@ == grep_file_report(query@, display_path@, ignore_case, language@, all@, offset as nat, limit as nat, show_hashes),
{
    let total = all.len();
    let mut out: Vec<char> = Vec::new();
    if total == 0 {
        push_str(&mut out, "**🔍 Search Results: No matches found**\n\nPattern: `");
        push_str(&mut out, query);
        push_str(&mut out, "`\nFile: `");
        push_str(&mut out, display_path);
        push_str(&mut out, "`\nOptions: ");
        if ignore_case {
            push_str(&mut out, "case-insensitive");
        } else {
            push_str(&mut out, "case-sensitive");
        }
        out.push('\n');
        assert(out@ =~= grep_file_report(query@, display_path@, ignore_case, language@, all@, offset as nat, limit as nat, show_hashes));
        return string_from_chars(out.as_slice());
    }
    let (start, end) = page_bounds(total, offset, limit);
    proof {
        lemma_page_of_bounds(all@, offset as int, limit as int, start as int, end as int);
    }
    let ghost page = all@.subrange(start as int, end as int);
    push_str(&mut out, "**🔍 Search Results: ");
    push_dec(&mut out, total as u64);
    push_str(&mut out, " match(es) found**\n\n");
    push_str(&mut out, "File: `");
    push_str(&mut out, display_path);
    push_str(&mut out, "`\nPattern: `");
    push_str(&mut out, query);
    push_str(&mut out, "`\n\n");
    push_str(&mut out, "```");
    push_str(&mut out, language);
    out.push('\n');
    let ghost head = out@;
    let mut i = start;
    proof {
        assert(all@.subrange(start as int, start as int) =~= Seq::<GrepLine>::empty());
    }
    while i < end
        invariant
            start <= i <= end,
            end <= all.len(),
            out@ == head + grep_page_text(all@.subrange(start as int, i as int)),
        decreases end - i,
    {
        let ghost before = out@;
        push_grep_line(&mut out, &all[i]);
        proof {
            let sub = all@.subrange(start as int, i + 1);
            assert(sub.drop_last() =~= all@.subrange(start as int, i as int));
            assert(sub.last() == all@[i as int]);
        }
        i += 1;
    }
    push_str(&mut out, "```\n\n");
    let shown = end - start;
    push_page_note(&mut out, offset, shown, total, limit);
    if show_hashes {
        push_str(&mut out, "Use the returned anchors with editFiles. For range replacement/deletion, also copy endAnchor from the exact end line.\n");
    } else {
        push_str(&mut out, "If you plan to use editFiles next, run again with `showLineAnchors: true` to get anchors.\n");
    }
    assert(page.len() == shown);
    assert(out@ =~= grep_file_report(query@, display_path@, ignore_case, language@, all@, offset as nat, limit as nat, show_hashes));
    string_from_chars(out.as_slice())
}

// ---------------------------------------------------------------------------
// Search arguments
// ---------------------------------------------------------------------------

/// A refused search argument: the message and what to do instead.
pub struct InvalidArgument {
    pub message: String,
    pub guidance: Vec<String>,
}

/// The page size and offset of a search: `limit` defaults to 50 and must
/// lie in 1..=1000, `offset` defaults to 0 and must fit in `usize`.
pub open spec fn pagination_outcome(limit: Option<u64>, offset: Option<u64>) -> Result<(usize, usize), (Seq<char>, Seq<Seq<char>>)> {
    let l = match limit { Some(v) => v, None => 50u64 };
    let o = match offset { Some(v) => v, None => 0u64 };
    if !(1 <= l <= 1000) {
        Err((
            "Invalid pagination parameter: limit must be between 1 and 1000, got "@ + dec(l as nat),
            seq!["Set limit to a value between 1 and 1000"@, "Use offset to paginate through additional results"@],
        ))
    } else if o > usize::MAX {
        Err((
            "Invalid pagination parameter: offset is too large for this platform ("@ + dec(o as nat) + seq![')'],
            seq!["Set offset to a smaller non-negative value"@, "Use limit and offset together to page through results"@],
        ))
    } else {
        Ok((l as usize, o as usize))
    }
}

/// Reads the `limit` and `offset` of a search (each `None` when absent or
/// not an unsigned integer).
pub fn parse_pagination(limit: Option<u64>, offset: Option<u64>) -> (r: Result<(usize, usize), InvalidArgument>)
    ensures
        match (r, pagination_outcome(limit, offset)) {
            (Ok(v), Ok(w)) => v == w,
            (Err(e), Err((m, g))) => e.message@ == m && string_views(e.guidance@) == g,
            _ => false,
        },
{
    let l: u64 = match limit {
        Some(v) => v,
        None => 50,
    };
    if !(1 <= l && l <= 1000) {
        let mut msg: Vec<char> = Vec::new();
        push_str(&mut msg, "Invalid pagination parameter: limit must be between 1 and 1000, got ");
        push_dec(&mut msg, l);
        let mut guidance: Vec<String> = Vec::new();
        guidance.push("Set limit to a value between 1 and 1000".to_string());
        guidance.push("Use offset to paginate through additional results".to_string());
        assert(string_views(guidance@) =~= seq!["Set limit to a value between 1 and 1000"@, "Use offset to paginate through additional results"@]);
        return Err(InvalidArgument { message: string_from_chars(msg.as_slice()), guidance });
    }
    let o: u64 = match offset {
        Some(v) => v,
        None => 0,
    };
    if o as u128 > usize::MAX as u128 {
        let mut msg: Vec<char> = Vec::new();
        push_str(&mut msg, "Invalid pagination parameter: offset is too large for this platform (");
        push_dec(&mut msg, o);
        msg.push(')');
        let mut guidance: Vec<String> = Vec::new();
        guidance.push("Set offset to a smaller non-negative value".to_string());
        guidance.push("Use limit and offset together to page through results".to_string());
        assert(string_views(guidance@) =~= seq!["Set offset to a smaller non-negative value"@, "Use limit and offset together to page through results"@]);
        return Err(InvalidArgument { message: string_from_chars(msg.as_slice()), guidance });
    }
    Ok((l as usize, o as usize))
}

/// An optional text argument that was given must not be empty.
pub fn reject_empty_optional_str<'a>(value: Option<&'a str>, field: &str, guidance: Vec<String>) -> (r: Result<
    Option<&'a str>,
    InvalidArgument,
>)
    ensures
        match r {
            Ok(v) => v == value && !(value matches Some(s) && s@.len() == 0),
            Err(e) => (value matches Some(s) && s@.len() == 0) && e.message@ == "Invalid "@ + field@ + ": "@ + field@
                + " must not be empty"@ && e.guidance@ == guidance@,
        },
{
    match value {
        Some(s) => {
            if s.is_empty() {
                let mut msg: Vec<char> = Vec::new();
                push_str(&mut msg, "Invalid ");
                push_str(&mut msg, field);
                push_str(&mut msg, ": ");
                push_str(&mut msg, field);
                push_str(&mut msg, " must not be empty");
                return Err(InvalidArgument { message: string_from_chars(msg.as_slice()), guidance });
            }
        },
        None => {},
    }
    Ok(value)
}

} // verus!
