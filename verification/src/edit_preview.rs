//! The anchored diff preview shown after a batch of edits: which lines were
//! removed, added or kept, and which parts of that listing are shown.
use vstd::prelude::*;
use crate::text::{chars_eq, copy_chars, seqs_of, split_lines, lines_of};
use crate::hashline::{anchor_at, anchor_chars, FNV_OFFSET, prefix_state};
use crate::edit::{EditAction, LineEdit, applicable, arranged, in_order, new_start, region_start, region_end, replacement_count, apply_edits_recording};

verus! {

/// How a line of the preview relates to the edit.
#[derive(Debug, Clone, Copy, PartialEq, Eq, Structural)]
pub enum DiffPreviewKind {
    Context,
    Added,
    Removed,
}

/// A line of a file with its number and anchor.
#[derive(Debug)]
pub struct AnchoredLine {
    pub line_number: usize,
    pub content: Vec<char>,
    pub anchor: Vec<char>,
}

/// One line of the diff preview.
#[derive(Debug)]
pub struct DiffPreviewLine {
    pub kind: DiffPreviewKind,
    pub content: Vec<char>,
    pub line_number: usize,
    pub anchor: Option<Vec<char>>,
}

/// A preview line as plain values: kind, content, line number, anchor.
pub open spec fn preview_view(d: DiffPreviewLine) -> (DiffPreviewKind, Seq<char>, int, Option<Seq<char>>) {
    (d.kind, d.content@, d.line_number as int, match d.anchor {
        Some(a) => Some(a@),
        None => None,
    })
}

pub open spec fn preview_views(v: Seq<DiffPreviewLine>) -> Seq<(DiffPreviewKind, Seq<char>, int, Option<Seq<char>>)> {
    Seq::new(v.len(), |i: int| preview_view(v[i]))
}

/// The preview line showing an anchored line with the given kind.
pub open spec fn item(kind: DiffPreviewKind, a: AnchoredLine) -> (DiffPreviewKind, Seq<char>, int, Option<Seq<char>>) {
    (kind, a.content@, a.line_number as int, Some(a.anchor@))
}

/// The anchored lines of a text: line `i` has number `i + 1`, its content
/// and its anchor.
pub open spec fn anchored_lines_of(v: Seq<AnchoredLine>, text: Seq<char>) -> bool {
    let ls = lines_of(text);
    &&& v.len() == ls.len()
    &&& forall|i: int| 0 <= i < v.len() ==> {
        &&& (#[trigger] v[i]).line_number == i + 1
        &&& v[i].content@ == ls[i]
        &&& v[i].anchor@ == anchor_at(ls, i)
    }
}

/// Build the anchored lines of `content`.
pub fn build_anchored_lines(content: &[char]) -> (r: Vec<AnchoredLine>)
    ensures
        anchored_lines_of(r@, content@),
{
    let lines = split_lines(content);
    let ghost ls = seqs_of(lines@);
    let mut state = FNV_OFFSET;
    let mut out: Vec<AnchoredLine> = Vec::new();
    let mut i: usize = 0;
    while i < lines.len()
        invariant
            ls == seqs_of(lines@),
            ls == lines_of(content@),
            i <= lines.len(),
            state == prefix_state(ls, i as nat),
            out@.len() == i,
            forall|j: int| 0 <= j < i ==> {
                &&& (#[trigger] out@[j]).line_number == j + 1
                &&& out@[j].content@ == ls[j]
                &&& out@[j].anchor@ == anchor_at(ls, j)
            },
        decreases lines.len() - i,
    {
        let anchor = anchor_chars(lines[i].as_slice(), &mut state);
        out.push(AnchoredLine { line_number: i + 1, content: copy_chars(lines[i].as_slice()), anchor });
        i += 1;
    }
    out
}

/// Context lines `nl[from..from + m]`.
pub open spec fn context_items(nl: Seq<AnchoredLine>, from: int, m: int) -> Seq<(DiffPreviewKind, Seq<char>, int, Option<Seq<char>>)> {
    Seq::new(if m > 0 { m as nat } else { 0 }, |i: int| item(DiffPreviewKind::Context, nl[from + i]))
}

/// Lines of one kind for `v[from..to]`.
pub open spec fn kind_items(kind: DiffPreviewKind, v: Seq<AnchoredLine>, from: int, to: int) -> Seq<(DiffPreviewKind, Seq<char>, int, Option<Seq<char>>)> {
    Seq::new(if to > from { (to - from) as nat } else { 0 }, |i: int| item(kind, v[from + i]))
}

pub open spec fn min_int(a: int, b: int) -> int {
    if a <= b { a } else { b }
}

pub open spec fn max_int(a: int, b: int) -> int {
    if a >= b { a } else { b }
}

/// Where edit `k` (in order) starts in the original lines, clamped.
pub open spec fn old_from(ord: Seq<LineEdit>, k: int, ol: Seq<AnchoredLine>) -> int {
    min_int(region_start(ord[k]), ol.len() as int)
}

/// Where edit `k` (in order) ends in the original lines, clamped.
pub open spec fn old_to(ord: Seq<LineEdit>, k: int, ol: Seq<AnchoredLine>) -> int {
    min_int(region_end(ord[k]), ol.len() as int)
}

/// Where edit `k` (in order) starts in the new lines, clamped.
pub open spec fn new_from(ord: Seq<LineEdit>, k: int, nl: Seq<AnchoredLine>) -> int {
    min_int(max_int(new_start(ord, k), 0), nl.len() as int)
}

/// Where edit `k` (in order) ends in the new lines, clamped.
pub open spec fn new_to(ord: Seq<LineEdit>, k: int, nl: Seq<AnchoredLine>) -> int {
    min_int(new_from(ord, k, nl) + replacement_count(ord[k]), nl.len() as int)
}

/// The old and new slices of edit `k` hold the same text line for line.
pub open spec fn slices_match(ord: Seq<LineEdit>, k: int, ol: Seq<AnchoredLine>, nl: Seq<AnchoredLine>) -> bool {
    let a = old_from(ord, k, ol);
    let b = old_to(ord, k, ol);
    let c = new_from(ord, k, nl);
    let d = new_to(ord, k, nl);
    &&& b - a == d - c
    &&& forall|i: int| 0 <= i < b - a ==> (#[trigger] ol[a + i]).content@ == nl[c + i].content@
}

/// The preview after the first `k` edits (in order): how far it has
/// walked through the old and new lines, and the lines emitted.
pub open spec fn preview_after(ord: Seq<LineEdit>, ol: Seq<AnchoredLine>, nl: Seq<AnchoredLine>, k: int) -> (int, int, Seq<(DiffPreviewKind, Seq<char>, int, Option<Seq<char>>)>)
    decreases k,
{
    if k <= 0 {
        (0, 0, Seq::empty())
    } else {
        let (o, n, out) = preview_after(ord, ol, nl, k - 1);
        let j = k - 1;
        let a = old_from(ord, j, ol);
        let b = old_to(ord, j, ol);
        let c = new_from(ord, j, nl);
        let d = new_to(ord, j, nl);
        let m = min_int(a - o, c - n);
        let out1 = out + context_items(nl, n, m);
        let out2 = if slices_match(ord, j, ol, nl) {
            out1 + kind_items(DiffPreviewKind::Context, nl, c, d)
        } else {
            out1 + kind_items(DiffPreviewKind::Removed, ol, a, b) + kind_items(
                DiffPreviewKind::Added,
                nl,
                c,
                d,
            )
        };
        (b, d, out2)
    }
}

/// The whole preview: every edit's lines with the unchanged lines between
/// them as context, walking old and new lines side by side.
pub open spec fn preview_lines_of(ord: Seq<LineEdit>, ol: Seq<AnchoredLine>, nl: Seq<AnchoredLine>) -> Seq<(DiffPreviewKind, Seq<char>, int, Option<Seq<char>>)> {
    let (o, n, out) = preview_after(ord, ol, nl, ord.len() as int);
    out + context_items(nl, n, min_int(ol.len() - o, nl.len() - n))
}

fn push_item(out: &mut Vec<DiffPreviewLine>, kind: DiffPreviewKind, a: &AnchoredLine)
    ensures
        preview_views(final(out)@) == preview_views(old(out)@).push(item(kind, *a)),
{
    let ghost before = preview_views(out@);
    out.push(DiffPreviewLine {
        kind,
        content: copy_chars(a.content.as_slice()),
        line_number: a.line_number,
        anchor: Some(copy_chars(a.anchor.as_slice())),
    });
    assert(preview_views(out@) =~= before.push(item(kind, *a)));
}

fn push_context_line(lines: &mut Vec<DiffPreviewLine>, line: &AnchoredLine)
    ensures
        preview_views(final(lines)@) == preview_views(old(lines)@).push(
            item(DiffPreviewKind::Context, *line),
        ),
{
    push_item(lines, DiffPreviewKind::Context, line);
}

/// Pushes `v[from..to]` with the given kind.
fn push_kind_range(out: &mut Vec<DiffPreviewLine>, kind: DiffPreviewKind, v: &Vec<AnchoredLine>, from: usize, to: usize)
    requires
        from <= to <= v.len(),
    ensures
        preview_views(final(out)@) == preview_views(old(out)@) + kind_items(kind, v@, from as int, to as int),
{
    let ghost start = preview_views(out@);
    let mut i = from;
    while i < to
        invariant
            from <= i <= to <= v.len(),
            preview_views(out@) == start + kind_items(kind, v@, from as int, i as int),
        decreases to - i,
    {
        push_item(out, kind, &v[i]);
        assert(kind_items(kind, v@, from as int, i + 1) =~= kind_items(kind, v@, from as int, i as int).push(item(kind, v@[i as int])));
        i += 1;
    }
}

/// Whether `ol[a..b]` and `nl[c..d]` hold the same text.
fn same_text(ol: &Vec<AnchoredLine>, a: usize, b: usize, nl: &Vec<AnchoredLine>, c: usize, d: usize) -> (r: bool)
    requires
        a <= b <= ol.len(),
        c <= d <= nl.len(),
    ensures
        r == (b - a == d - c && forall|i: int| 0 <= i < b - a ==> (#[trigger] ol@[a + i]).content@ == nl@[c + i].content@),
{
    if b - a != d - c {
        return false;
    }
    let mut i: usize = 0;
    while i < b - a
        invariant
            a <= b <= ol.len(),
            c <= d <= nl.len(),
            b - a == d - c,
            i <= b - a,
            forall|j: int| 0 <= j < i ==> (#[trigger] ol@[a + j]).content@ == nl@[c + j].content@,
        decreases b - a - i,
    {
        if !chars_eq(ol[a + i].content.as_slice(), nl[c + i].content.as_slice()) {
            return false;
        }
        i += 1;
    }
    true
}

/// The contents of anchored lines.
fn contents_of(v: &Vec<AnchoredLine>) -> (r: Vec<Vec<char>>)
    ensures
        r@.len() == v@.len(),
{
    let mut out: Vec<Vec<char>> = Vec::new();
    let mut i: usize = 0;
    while i < v.len()
        invariant
            i <= v.len(),
            out@.len() == i,
        decreases v.len() - i,
    {
        out.push(copy_chars(v[i].content.as_slice()));
        i += 1;
    }
    out
}

/// Build the preview lines of a batch: for each edit in order of start
/// line, the unchanged lines before it (as context), then its old lines as
/// removed and its new lines as added (or, when they are the same text,
/// the new lines as context); then the remaining unchanged lines.
#[verifier::rlimit(60)]
pub fn build_preview_lines(edits: &[LineEdit], original_lines: &Vec<AnchoredLine>, new_lines: &Vec<AnchoredLine>) -> (r: Vec<DiffPreviewLine>)
    requires
        applicable(edits@, original_lines@.len() as nat),
    ensures
        exists|perm: Seq<usize>| arranged(edits@, perm),
        forall|perm: Seq<usize>| #[trigger] arranged(edits@, perm) ==> preview_views(r@)
            == preview_lines_of(in_order(edits@, perm), original_lines@, new_lines@),
{
    let ghost es = edits@;
    let ghost ol = original_lines@;
    let ghost nl = new_lines@;
    let contents = contents_of(original_lines);
    let (_m, perm, starts) = apply_edits_recording(&contents, edits);
    let ghost ord = in_order(es, perm@);
    proof {
        crate::edit::lemma_regions_ordered(es, perm@, ol.len() as nat);
    }
    let mut out: Vec<DiffPreviewLine> = Vec::new();
    let mut cur_old: usize = 0;
    let mut cur_new: usize = 0;
    let mut k: usize = 0;
    while k < perm.len()
        invariant
            es == edits@,
            ol == original_lines@,
            nl == new_lines@,
            ord == in_order(es, perm@),
            arranged(es, perm@),
            k <= perm.len(),
            starts@.len() == perm.len(),
            forall|j: int| 0 <= j < starts@.len() ==> #[trigger] starts@[j] == new_start(ord, j),
            forall|j: int| 0 <= j < perm.len() ==> {
                let e = #[trigger] ord[j];
                0 <= region_start(e) <= region_end(e) <= ol.len()
            },
            cur_old <= ol.len(),
            cur_new <= nl.len(),
            preview_after(ord, ol, nl, k as int) == (cur_old as int, cur_new as int, preview_views(out@)),
        decreases perm.len() - k,
    {
        let e = &edits[perm[k]];
        assert(*e == ord[k as int]);
        let rs: usize = if e.action == EditAction::InsertAfter { e.start_line } else { e.start_line - 1 };
        let re: usize = if e.action == EditAction::InsertAfter { e.start_line } else { e.end_line };
        let a = if rs <= original_lines.len() { rs } else { original_lines.len() };
        let b = if re <= original_lines.len() { re } else { original_lines.len() };
        let s = starts[k];
        let count = e.replacement_line_count();
        let c = if s <= new_lines.len() { s } else { new_lines.len() };
        let d = if count <= new_lines.len() - c { c + count } else { new_lines.len() };
        assert(a as int == old_from(ord, k as int, ol));
        assert(b as int == old_to(ord, k as int, ol));
        assert(c as int == new_from(ord, k as int, nl));
        assert(d as int == new_to(ord, k as int, nl));
        let ghost before = preview_views(out@);
        let ghost old0 = cur_old;
        let ghost new0 = cur_new;
        while cur_old < a && cur_new < c
            invariant
                old0 <= cur_old,
                new0 <= cur_new,
                cur_new - new0 > 0 ==> cur_old <= a && cur_new <= c,
                a <= ol.len(),
                c <= nl.len(),
                ol == original_lines@,
                nl == new_lines@,
                cur_old - old0 == cur_new - new0,
                preview_views(out@) == before + context_items(nl, new0 as int, cur_new - new0),
            decreases a - cur_old,
        {
            push_context_line(&mut out, &new_lines[cur_new]);
            assert(context_items(nl, new0 as int, cur_new + 1 - new0) =~= context_items(nl, new0 as int, cur_new - new0).push(item(DiffPreviewKind::Context, nl[cur_new as int])));
            cur_old += 1;
            cur_new += 1;
        }
        assert(context_items(nl, new0 as int, cur_new - new0) =~= context_items(nl, new0 as int, min_int(a - old0, c - new0)));
        if same_text(original_lines, a, b, new_lines, c, d) {
            push_kind_range(&mut out, DiffPreviewKind::Context, new_lines, c, d);
        } else {
            push_kind_range(&mut out, DiffPreviewKind::Removed, original_lines, a, b);
            push_kind_range(&mut out, DiffPreviewKind::Added, new_lines, c, d);
        }
        cur_old = b;
        cur_new = d;
        k += 1;
    }
    let ghost before = preview_views(out@);
    let ghost old0 = cur_old;
    let ghost new0 = cur_new;
    while cur_old < original_lines.len() && cur_new < new_lines.len()
        invariant
            old0 <= cur_old <= ol.len(),
            new0 <= cur_new <= nl.len(),
            ol == original_lines@,
            nl == new_lines@,
            cur_old - old0 == cur_new - new0,
            preview_views(out@) == before + context_items(nl, new0 as int, cur_new - new0),
        decreases ol.len() - cur_old,
    {
        push_context_line(&mut out, &new_lines[cur_new]);
        assert(context_items(nl, new0 as int, cur_new + 1 - new0) =~= context_items(nl, new0 as int, cur_new - new0).push(item(DiffPreviewKind::Context, nl[cur_new as int])));
        cur_old += 1;
        cur_new += 1;
    }
    proof {
        assert(context_items(nl, new0 as int, cur_new - new0) =~= context_items(nl, new0 as int, min_int(ol.len() - old0, nl.len() - new0)));
        assert(preview_views(out@) == preview_lines_of(ord, ol, nl));
        assert forall|p: Seq<usize>| #[trigger] arranged(es, p) implies preview_views(out@)
            == preview_lines_of(in_order(es, p), ol, nl) by {
            crate::edit::lemma_arranged_unique(es, perm@, p);
        }
    }
    out
}

} // verus!
