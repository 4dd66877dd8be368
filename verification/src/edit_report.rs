//! Rendering the preview of a batch of edits and the report of a
//! successful multi-file edit.
use vstd::prelude::*;
use crate::text::{chars_of, dec, join, join_chars, lines_of, push_chars, push_dec, push_str, seqs_of};
use crate::edit::{LineEdit, applicable, arranged, in_order, well_shaped};
use crate::edit_prepare::PreparedFileEdit;
use crate::edit_preview::{DiffPreviewKind, DiffPreviewLine, AnchoredLine, preview_view, preview_views, preview_lines_of, anchored_lines_of, build_anchored_lines, build_preview_lines};

verus! {

pub const MAX_DIFF_PREVIEW_LINES: usize = 50usize;
pub const DIFF_CONTEXT_LINES: usize = 1usize;

/// `{n}:{anchor}|{content}`, or `{n}|{content}` without an anchor.
pub open spec fn render_hashline_of(v: (DiffPreviewKind, Seq<char>, int, Option<Seq<char>>)) -> Seq<char> {
    match v.3 {
        Some(a) => dec(v.2 as nat) + seq![':'] + a + seq!['|'] + v.1,
        None => dec(v.2 as nat) + seq!['|'] + v.1,
    }
}

/// A preview line with its two-character marker (`"  "`, `"+ "`, `"- "`).
pub open spec fn render_of(v: (DiffPreviewKind, Seq<char>, int, Option<Seq<char>>)) -> Seq<char> {
    let marker = match v.0 {
        DiffPreviewKind::Context => seq![' ', ' '],
        DiffPreviewKind::Added => seq!['+', ' '],
        DiffPreviewKind::Removed => seq!['-', ' '],
    };
    marker + render_hashline_of(v)
}

impl DiffPreviewLine {
    pub fn render_hashline(&self) -> (r: Vec<char>)
        ensures
            r@ == render_hashline_of(preview_view(*self)),
    {
        let mut out: Vec<char> = Vec::new();
        push_dec(&mut out, self.line_number as u64);
        match &self.anchor {
            Some(a) => {
                out.push(':');
                push_chars(&mut out, a.as_slice());
                out.push('|');
            },
            None => {
                out.push('|');
            },
        }
        push_chars(&mut out, self.content.as_slice());
        assert(out@ =~= render_hashline_of(preview_view(*self)));
        out
    }

    pub fn render(&self) -> (r: Vec<char>)
        ensures
            r@ == render_of(preview_view(*self)),
    {
        let mut out: Vec<char> = Vec::new();
        match self.kind {
            DiffPreviewKind::Context => {
                out.push(' ');
                out.push(' ');
            },
            DiffPreviewKind::Added => {
                out.push('+');
                out.push(' ');
            },
            DiffPreviewKind::Removed => {
                out.push('-');
                out.push(' ');
            },
        }
        let h = self.render_hashline();
        push_chars(&mut out, h.as_slice());
        assert(out@ =~= render_of(preview_view(*self)));
        out
    }
}

/// The ranges of preview lines shown: every changed line with one line of
/// context on each side, overlapping or touching ranges merged.
pub open spec fn ranges_upto(kinds: Seq<DiffPreviewKind>, i: int) -> Seq<(int, int)>
    decreases i,
{
    if i <= 0 {
        Seq::empty()
    } else {
        let prev = ranges_upto(kinds, i - 1);
        let idx = i - 1;
        if kinds[idx] == DiffPreviewKind::Context {
            prev
        } else {
            let start = if idx >= 1 { idx - 1 } else { 0 };
            let end = if idx + 2 <= kinds.len() { idx + 2 } else { kinds.len() as int };
            if prev.len() > 0 && start <= prev.last().1 {
                prev.update(prev.len() - 1, (prev.last().0, if prev.last().1 >= end { prev.last().1 } else { end }))
            } else {
                prev.push((start, end))
            }
        }
    }
}

pub open spec fn kinds_of(v: Seq<(DiffPreviewKind, Seq<char>, int, Option<Seq<char>>)>) -> Seq<DiffPreviewKind> {
    Seq::new(v.len(), |i: int| v[i].0)
}

pub open spec fn range_views(v: Seq<(usize, usize)>) -> Seq<(int, int)> {
    Seq::new(v.len(), |i: int| (v[i].0 as int, v[i].1 as int))
}

/// Group the changed preview lines into ranges with one line of context.
pub fn build_preview_ranges(preview_lines: &Vec<DiffPreviewLine>) -> (r: Vec<(usize, usize)>)
    ensures
        range_views(r@) == ranges_upto(kinds_of(preview_views(preview_lines@)), preview_lines@.len() as int),
        forall|i: int| 0 <= i < r@.len() ==> (#[trigger] r@[i]).0 <= r@[i].1 <= preview_lines@.len(),
{
    let ghost kinds = kinds_of(preview_views(preview_lines@));
    let len = preview_lines.len();
    let mut ranges: Vec<(usize, usize)> = Vec::new();
    let mut i: usize = 0;
    while i < len
        invariant
            len == preview_lines@.len(),
            kinds == kinds_of(preview_views(preview_lines@)),
            i <= len,
            range_views(ranges@) == ranges_upto(kinds, i as int),
            forall|j: int| 0 <= j < ranges@.len() ==> (#[trigger] ranges@[j]).0 <= ranges@[j].1 <= len,
        decreases len - i,
    {
        assert(kinds[i as int] == preview_lines@[i as int].kind);
        if preview_lines[i].kind != DiffPreviewKind::Context {
            let start = if i >= 1 { i - 1 } else { 0 };
            let end = if len - i >= 2 { i + 2 } else { len };
            let n = ranges.len();
            if n > 0 && start <= ranges[n - 1].1 {
                let (s0, e0) = ranges[n - 1];
                let ne = if e0 >= end { e0 } else { end };
                ranges.set(n - 1, (s0, ne));
                assert(range_views(ranges@) =~= ranges_upto(kinds, i + 1));
            } else {
                ranges.push((start, end));
                assert(range_views(ranges@) =~= ranges_upto(kinds, i + 1));
            }
        }
        i += 1;
    }
    ranges
}

/// `"  ... {n} unchanged line(s) omitted"`.
pub open spec fn omitted_marker(n: nat) -> Seq<char> {
    "  ... "@ + dec(n) + " unchanged line(s) omitted"@
}

/// `"  ... {n} more diff line(s) omitted"`.
pub open spec fn more_marker(n: nat) -> Seq<char> {
    "  ... "@ + dec(n) + " more diff line(s) omitted"@
}

/// Every line the preview could show, in order, each flagged whether it
/// is a preview line (as opposed to an omission marker): for each range,
/// a marker for the unchanged lines skipped since the previous range, then
/// the range's lines.
pub open spec fn candidates(pv: Seq<(DiffPreviewKind, Seq<char>, int, Option<Seq<char>>)>, ranges: Seq<(int, int)>, ri: int) -> Seq<(Seq<char>, bool)>
    decreases ri,
{
    if ri <= 0 {
        Seq::empty()
    } else {
        let prev = candidates(pv, ranges, ri - 1);
        let r = ranges[ri - 1];
        let omitted = if ri - 1 > 0 && r.0 > ranges[ri - 2].1 { r.0 - ranges[ri - 2].1 } else { 0 };
        let gap = if omitted > 0 { seq![(omitted_marker(omitted as nat), false)] } else { Seq::empty() };
        prev + gap + Seq::new((r.1 - r.0) as nat, |j: int| (render_of(pv[r.0 + j]), true))
    }
}

/// How many of the given lines are preview lines.
pub open spec fn selected_count(c: Seq<(Seq<char>, bool)>) -> nat
    decreases c.len(),
{
    if c.len() == 0 {
        0
    } else {
        selected_count(c.drop_last()) + if c.last().1 { 1nat } else { 0nat }
    }
}

pub open spec fn texts(c: Seq<(Seq<char>, bool)>) -> Seq<Seq<char>> {
    Seq::new(c.len(), |i: int| c[i].0)
}

/// The shown diff: the candidate lines, cut at 50 lines; when preview lines
/// were cut, the last shown line gives way to a marker counting the preview
/// lines not shown.
pub open spec fn diff_text(pv: Seq<(DiffPreviewKind, Seq<char>, int, Option<Seq<char>>)>, ranges: Seq<(int, int)>) -> Seq<char> {
    if ranges.len() == 0 {
        "  (no line-level changes to preview)"@
    } else {
        let c = candidates(pv, ranges, ranges.len() as int);
        let max = MAX_DIFF_PREVIEW_LINES as int;
        if c.len() <= max {
            join(texts(c), seq!['\n'])
        } else if selected_count(c) == selected_count(c.take(max)) {
            join(texts(c.take(max)), seq!['\n'])
        } else {
            join(
                texts(c.take(max - 1)).push(more_marker((selected_count(c) - selected_count(c.take(max - 1))) as nat)),
                seq!['\n'],
            )
        }
    }
}

proof fn lemma_selected_count_take(c: Seq<(Seq<char>, bool)>, i: int)
    requires
        0 <= i < c.len(),
    ensures
        selected_count(c.take(i + 1)) == selected_count(c.take(i)) + if c[i].1 { 1nat } else { 0nat },
{
    assert(c.take(i + 1).drop_last() =~= c.take(i));
}

proof fn lemma_selected_count_bound(c: Seq<(Seq<char>, bool)>)
    ensures
        selected_count(c) <= c.len(),
    decreases c.len(),
{
    if c.len() > 0 {
        lemma_selected_count_bound(c.drop_last());
    }
}

/// Appends the candidate lines of range `ri`.
fn push_range_candidates(out: &mut Vec<(Vec<char>, bool)>, preview_lines: &Vec<DiffPreviewLine>, ranges: &Vec<(usize, usize)>, ri: usize)
    requires
        ri < ranges@.len(),
        forall|i: int| 0 <= i < ranges@.len() ==> (#[trigger] ranges@[i]).0 <= ranges@[i].1 <= preview_lines@.len(),
    ensures
        cand_views(final(out)@) == cand_views(old(out)@) + candidates(preview_views(preview_lines@), range_views(ranges@), ri + 1).subrange(
            candidates(preview_views(preview_lines@), range_views(ranges@), ri as int).len() as int,
            candidates(preview_views(preview_lines@), range_views(ranges@), ri + 1).len() as int,
        ),
{
    let ghost pv = preview_views(preview_lines@);
    let ghost rv = range_views(ranges@);
    let ghost prev = candidates(pv, rv, ri as int);
    let ghost start_out = cand_views(out@);
    let (start, end) = ranges[ri];
    if ri > 0 && start > ranges[ri - 1].1 {
        let omitted = start - ranges[ri - 1].1;
        let mut m: Vec<char> = Vec::new();
        push_str(&mut m, "  ... ");
        push_dec(&mut m, omitted as u64);
        push_str(&mut m, " unchanged line(s) omitted");
        let ghost b = cand_views(out@);
        out.push((m, false));
        assert(cand_views(out@) =~= b.push((omitted_marker(omitted as nat), false)));
    }
    let ghost mid = cand_views(out@);
    let mut j = start;
    while j < end
        invariant
            start <= j <= end <= preview_lines@.len(),
            pv == preview_views(preview_lines@),
            cand_views(out@) == mid + Seq::new((j - start) as nat, |t: int| (render_of(pv[start + t]), true)),
        decreases end - j,
    {
        let line = preview_lines[j].render();
        let ghost b = cand_views(out@);
        out.push((line, true));
        assert(cand_views(out@) =~= b.push((render_of(pv[j as int]), true)));
        assert(Seq::new((j + 1 - start) as nat, |t: int| (render_of(pv[start + t]), true)) =~= Seq::new((j - start) as nat, |t: int| (render_of(pv[start + t]), true)).push((render_of(pv[j as int]), true)));
        j += 1;
    }
    let ghost next = candidates(pv, rv, ri + 1);
    assert(next.subrange(prev.len() as int, next.len() as int) =~= cand_views(out@).subrange(start_out.len() as int, cand_views(out@).len() as int));
    assert(cand_views(out@) =~= start_out + next.subrange(prev.len() as int, next.len() as int));
}

pub open spec fn cand_views(v: Seq<(Vec<char>, bool)>) -> Seq<(Seq<char>, bool)> {
    Seq::new(v.len(), |i: int| (v[i].0@, v[i].1))
}

/// The candidate lines of all ranges.
fn build_candidates(preview_lines: &Vec<DiffPreviewLine>, ranges: &Vec<(usize, usize)>) -> (r: Vec<(Vec<char>, bool)>)
    requires
        forall|i: int| 0 <= i < ranges@.len() ==> (#[trigger] ranges@[i]).0 <= ranges@[i].1 <= preview_lines@.len(),
    ensures
        cand_views(r@) == candidates(preview_views(preview_lines@), range_views(ranges@), ranges@.len() as int),
{
    let ghost pv = preview_views(preview_lines@);
    let ghost rv = range_views(ranges@);
    let mut out: Vec<(Vec<char>, bool)> = Vec::new();
    let mut ri: usize = 0;
    while ri < ranges.len()
        invariant
            ri <= ranges@.len(),
            pv == preview_views(preview_lines@),
            rv == range_views(ranges@),
            forall|i: int| 0 <= i < ranges@.len() ==> (#[trigger] ranges@[i]).0 <= ranges@[i].1 <= preview_lines@.len(),
            cand_views(out@) == candidates(pv, rv, ri as int),
        decreases ranges@.len() - ri,
    {
        push_range_candidates(&mut out, preview_lines, ranges, ri);
        proof {
            let prev = candidates(pv, rv, ri as int);
            let next = candidates(pv, rv, ri + 1);
            assert(next.len() >= prev.len());
            assert(next.subrange(0, prev.len() as int) =~= prev);
            assert(prev + next.subrange(prev.len() as int, next.len() as int) =~= next);
        }
        ri += 1;
    }
    out
}

/// Render the cut diff from the candidate lines.
fn cut_candidates(c: &Vec<(Vec<char>, bool)>) -> (r: Vec<char>)
    ensures
        r@ == ({
            let cv = cand_views(c@);
            let max = MAX_DIFF_PREVIEW_LINES as int;
            if cv.len() <= max {
                join(texts(cv), seq!['\n'])
            } else if selected_count(cv) == selected_count(cv.take(max)) {
                join(texts(cv.take(max)), seq!['\n'])
            } else {
                join(
                    texts(cv.take(max - 1)).push(more_marker((selected_count(cv) - selected_count(cv.take(max - 1))) as nat)),
                    seq!['\n'],
                )
            }
        }),
{
    let ghost cv = cand_views(c@);
    // count selected lines overall and within the first 49 and 50
    let mut total: usize = 0;
    let mut sel49: usize = 0;
    let mut sel50: usize = 0;
    let mut i: usize = 0;
    while i < c.len()
        invariant
            i <= c.len(),
            cv == cand_views(c@),
            total == selected_count(cv.take(i as int)),
            sel49 == selected_count(cv.take(if i <= 49 { i as int } else { 49 })),
            sel50 == selected_count(cv.take(if i <= 50 { i as int } else { 50 })),
            total <= i,
            sel49 <= total,
            sel50 <= total,
        decreases c.len() - i,
    {
        proof {
            lemma_selected_count_take(cv, i as int);
            lemma_selected_count_bound(cv.take(i as int));
        }
        if c[i].1 {
            total += 1;
            if i < 49 {
                sel49 += 1;
            }
            if i < 50 {
                sel50 += 1;
            }
        }
        i += 1;
    }
    assert(cv.take(c.len() as int) =~= cv);
    let nl = ['\n'];
    assert(nl@ =~= seq!['\n']);
    let mut lines: Vec<Vec<char>> = Vec::new();
    let keep = if c.len() <= MAX_DIFF_PREVIEW_LINES {
        c.len()
    } else if total == sel50 {
        MAX_DIFF_PREVIEW_LINES
    } else {
        MAX_DIFF_PREVIEW_LINES - 1
    };
    let mut j: usize = 0;
    while j < keep
        invariant
            j <= keep <= c.len(),
            cv == cand_views(c@),
            seqs_of(lines@) == texts(cv.take(j as int)),
        decreases keep - j,
    {
        let ghost b = seqs_of(lines@);
        lines.push(crate::text::copy_chars(c[j].0.as_slice()));
        assert(seqs_of(lines@) =~= b.push(cv[j as int].0));
        assert(texts(cv.take(j + 1)) =~= texts(cv.take(j as int)).push(cv[j as int].0));
        j += 1;
    }
    if c.len() > MAX_DIFF_PREVIEW_LINES && total != sel50 {
        let mut m: Vec<char> = Vec::new();
        push_str(&mut m, "  ... ");
        push_dec(&mut m, (total - sel49) as u64);
        push_str(&mut m, " more diff line(s) omitted");
        let ghost b = seqs_of(lines@);
        lines.push(m);
        assert(seqs_of(lines@) =~= b.push(more_marker((selected_count(cv) - selected_count(cv.take(49))) as nat)));
    }
    if c.len() <= MAX_DIFF_PREVIEW_LINES {
        assert(cv.take(c.len() as int) =~= cv);
    }
    join_chars(&lines, &nl)
}

/// A batch as `prepare_file_edit` returns it.
pub open spec fn prepared(p: PreparedFileEdit) -> bool {
    &&& forall|k: int| 0 <= k < p.edits@.len() ==> #[trigger] crate::edit::well_formed(p.edits@[k])
    &&& applicable(p.edits@, lines_of(p.original_content@).len())
}

/// The preview of a batch: the diff text for its edits taken in order of
/// start line over the anchored lines of its old and new content.
pub open spec fn diff_spec(b: PreparedFileEdit, d: Seq<char>) -> bool {
    forall|perm: Seq<usize>, ol: Seq<AnchoredLine>, nl: Seq<AnchoredLine>|
        #![trigger arranged(b.edits@, perm), anchored_lines_of(ol, b.original_content@), anchored_lines_of(nl, b.new_content@)]
        arranged(b.edits@, perm) && anchored_lines_of(ol, b.original_content@) && anchored_lines_of(nl, b.new_content@) ==> {
            let pv = preview_lines_of(in_order(b.edits@, perm), ol, nl);
            d == diff_text(pv, ranges_upto(kinds_of(pv), pv.len() as int))
        }
}

/// The diff text of a batch (the one text that `diff_spec` admits).
pub open spec fn diff_of(b: PreparedFileEdit) -> Seq<char> {
    choose|d: Seq<char>| diff_spec(b, d)
}

/// Generate a git-style diff preview with anchor annotations for changed lines.
pub fn build_diff_with_anchors(batch: &PreparedFileEdit) -> (r: Vec<char>)
    requires
        prepared(*batch),
    ensures
        r@ == diff_of(*batch),
        exists|perm: Seq<usize>| arranged(batch.edits@, perm),
        forall|perm: Seq<usize>, ol: Seq<AnchoredLine>, nl: Seq<AnchoredLine>|
            #![trigger arranged(batch.edits@, perm), anchored_lines_of(ol, batch.original_content@), anchored_lines_of(nl, batch.new_content@)]
            arranged(batch.edits@, perm) && anchored_lines_of(ol, batch.original_content@) && anchored_lines_of(nl, batch.new_content@) ==> {
                let pv = preview_lines_of(in_order(batch.edits@, perm), ol, nl);
                r@ == diff_text(pv, ranges_upto(kinds_of(pv), pv.len() as int))
            },
{
    let oc = chars_of(batch.original_content.as_str());
    let ncs = chars_of(batch.new_content.as_str());
    let original_lines = build_anchored_lines(oc.as_slice());
    let new_lines = build_anchored_lines(ncs.as_slice());
    let preview = build_preview_lines(batch.edits.as_slice(), &original_lines, &new_lines);
    let ranges = build_preview_ranges(&preview);
    let ghost pvs = preview_views(preview@);
    assert(kinds_of(pvs).len() == preview@.len());
    let out = if ranges.len() == 0 {
        let mut m: Vec<char> = Vec::new();
        push_str(&mut m, "  (no line-level changes to preview)");
        m
    } else {
        let c = build_candidates(&preview, &ranges);
        cut_candidates(&c)
    };
    proof {
        assert forall|perm: Seq<usize>, ol: Seq<AnchoredLine>, nl: Seq<AnchoredLine>|
            #![trigger arranged(batch.edits@, perm), anchored_lines_of(ol, batch.original_content@), anchored_lines_of(nl, batch.new_content@)]
            arranged(batch.edits@, perm) && anchored_lines_of(ol, batch.original_content@) && anchored_lines_of(nl, batch.new_content@) implies {
                let pv = preview_lines_of(in_order(batch.edits@, perm), ol, nl);
                out@ == diff_text(pv, ranges_upto(kinds_of(pv), pv.len() as int))
            } by {
            lemma_anchored_unique(ol, original_lines@, batch.original_content@);
            lemma_anchored_unique(nl, new_lines@, batch.new_content@);
            assert(preview_views(preview@) == preview_lines_of(in_order(batch.edits@, perm), original_lines@, new_lines@));
            assert forall|k: int| 0 <= k < perm.len() implies #[trigger] well_shaped(in_order(batch.edits@, perm)[k]) by {
                assert(perm[k] < batch.edits@.len());
                assert(well_shaped(batch.edits@[perm[k] as int]));
            }
            lemma_preview_lines_congruent(in_order(batch.edits@, perm), ol, original_lines@, nl, new_lines@);
        }
        assert(diff_spec(*batch, out@));
        let d = diff_of(*batch);
        assert(diff_spec(*batch, d));
        let perm = choose|perm: Seq<usize>| arranged(batch.edits@, perm);
        assert(arranged(batch.edits@, perm));
        assert(anchored_lines_of(original_lines@, batch.original_content@));
        assert(anchored_lines_of(new_lines@, batch.new_content@));
    }
    out
}

/// Two anchored-line listings of the same text agree on every field.
pub proof fn lemma_anchored_unique(a: Seq<AnchoredLine>, b: Seq<AnchoredLine>, text: Seq<char>)
    requires
        anchored_lines_of(a, text),
        anchored_lines_of(b, text),
    ensures
        a.len() == b.len(),
        forall|i: int| 0 <= i < a.len() ==> (#[trigger] a[i]).line_number == b[i].line_number && a[i].content@ == b[i].content@ && a[i].anchor@ == b[i].anchor@,
{
}

/// The preview depends only on line numbers, contents and anchors.
pub proof fn lemma_preview_lines_congruent(ord: Seq<LineEdit>, ol: Seq<AnchoredLine>, ol2: Seq<AnchoredLine>, nl: Seq<AnchoredLine>, nl2: Seq<AnchoredLine>)
    requires
        forall|k: int| 0 <= k < ord.len() ==> #[trigger] well_shaped(ord[k]),
        ol.len() == ol2.len(),
        nl.len() == nl2.len(),
        forall|i: int| 0 <= i < ol.len() ==> (#[trigger] ol[i]).line_number == ol2[i].line_number && ol[i].content@ == ol2[i].content@ && ol[i].anchor@ == ol2[i].anchor@,
        forall|i: int| 0 <= i < nl.len() ==> (#[trigger] nl[i]).line_number == nl2[i].line_number && nl[i].content@ == nl2[i].content@ && nl[i].anchor@ == nl2[i].anchor@,
    ensures
        preview_lines_of(ord, ol, nl) == preview_lines_of(ord, ol2, nl2),
{
    lemma_preview_after_congruent(ord, ol, ol2, nl, nl2, ord.len() as int);
    let (o, n, out) = crate::edit_preview::preview_after(ord, ol, nl, ord.len() as int);
    assert(crate::edit_preview::context_items(nl, n, crate::edit_preview::min_int(ol.len() - o, nl.len() - n))
        =~= crate::edit_preview::context_items(nl2, n, crate::edit_preview::min_int(ol2.len() - o, nl2.len() - n)));
}

proof fn lemma_preview_after_congruent(ord: Seq<LineEdit>, ol: Seq<AnchoredLine>, ol2: Seq<AnchoredLine>, nl: Seq<AnchoredLine>, nl2: Seq<AnchoredLine>, k: int)
    requires
        forall|k: int| 0 <= k < ord.len() ==> #[trigger] well_shaped(ord[k]),
        ol.len() == ol2.len(),
        nl.len() == nl2.len(),
        forall|i: int| 0 <= i < ol.len() ==> (#[trigger] ol[i]).line_number == ol2[i].line_number && ol[i].content@ == ol2[i].content@ && ol[i].anchor@ == ol2[i].anchor@,
        forall|i: int| 0 <= i < nl.len() ==> (#[trigger] nl[i]).line_number == nl2[i].line_number && nl[i].content@ == nl2[i].content@ && nl[i].anchor@ == nl2[i].anchor@,
        k <= ord.len(),
    ensures
        crate::edit_preview::preview_after(ord, ol, nl, k) == crate::edit_preview::preview_after(ord, ol2, nl2, k),
    decreases k,
{
    if k > 0 {
        lemma_preview_after_congruent(ord, ol, ol2, nl, nl2, k - 1);
        let j = k - 1;
        let (o, n, out) = crate::edit_preview::preview_after(ord, ol, nl, k - 1);
        let a = crate::edit_preview::old_from(ord, j, ol);
        let b = crate::edit_preview::old_to(ord, j, ol);
        let c = crate::edit_preview::new_from(ord, j, nl);
        let d = crate::edit_preview::new_to(ord, j, nl);
        let m = crate::edit_preview::min_int(a - o, c - n);
        assert(well_shaped(ord[j]));
        assert(0 <= a <= b <= ol.len());
        assert(0 <= c <= d <= nl.len());
        assert(crate::edit_preview::context_items(nl, n, m) =~= crate::edit_preview::context_items(nl2, n, m));
        if crate::edit_preview::slices_match(ord, j, ol, nl) {
            assert forall|i: int| 0 <= i < b - a implies (#[trigger] ol2[a + i]).content@ == nl2[c + i].content@ by {
                assert(0 <= a + i < ol.len());
                assert(0 <= c + i < nl.len());
                assert(ol[a + i].content@ == nl[c + i].content@);
            }
        }
        if crate::edit_preview::slices_match(ord, j, ol2, nl2) {
            assert forall|i: int| 0 <= i < b - a implies (#[trigger] ol[a + i]).content@ == nl[c + i].content@ by {
                assert(0 <= a + i < ol.len());
                assert(0 <= c + i < nl.len());
                assert(ol2[a + i].content@ == nl2[c + i].content@);
            }
        }
        assert(crate::edit_preview::slices_match(ord, j, ol, nl) == crate::edit_preview::slices_match(ord, j, ol2, nl2));
        assert(crate::edit_preview::kind_items(DiffPreviewKind::Context, nl, c, d) =~= crate::edit_preview::kind_items(DiffPreviewKind::Context, nl2, c, d));
        assert(crate::edit_preview::kind_items(DiffPreviewKind::Added, nl, c, d) =~= crate::edit_preview::kind_items(DiffPreviewKind::Added, nl2, c, d));
        assert(crate::edit_preview::kind_items(DiffPreviewKind::Removed, ol, a, b) =~= crate::edit_preview::kind_items(DiffPreviewKind::Removed, ol2, a, b));
    }
}

} // verus!
