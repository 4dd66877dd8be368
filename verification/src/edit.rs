//! Anchored line edits: the edit model, the rule that no two edits of one
//! file may touch the same line, and applying a batch of edits to the lines
//! of a file.
use vstd::prelude::*;
use crate::text::{lines_of, seqs_of, split_lines, chars_of, copy_chars, string_from_chars};

verus! {

/// What an edit does to the lines it targets.
#[derive(Debug, Clone, Copy, PartialEq, Eq, Structural)]
pub enum EditAction {
    Replace,
    InsertAfter,
    Delete,
}

/// A single edit operation.
///
/// `start_line` and `end_line` are 1-based and inclusive; `start_line == 0`
/// is only meaningful for `InsertAfter` (insert at the top of the file).
#[derive(Debug)]
pub struct LineEdit {
    pub start_line: usize,
    pub end_line: usize,
    pub new_value: String,
    pub start_anchor: Option<String>,
    pub end_anchor: Option<String>,
    pub action: EditAction,
}

/// Whether an edit must carry the anchor of an existing line.
pub open spec fn spec_requires_existing_line_anchor(e: LineEdit) -> bool {
    !(e.action == EditAction::InsertAfter && e.start_line == 0)
}

/// Whether an edit must also carry the anchor of its last line.
pub open spec fn spec_requires_end_hash(e: LineEdit) -> bool {
    (e.action == EditAction::Replace || e.action == EditAction::Delete) && e.end_line
        > e.start_line
}

/// The lines an edit writes.
pub open spec fn replacement(e: LineEdit) -> Seq<Seq<char>> {
    if e.new_value@.len() == 0 {
        Seq::<Seq<char>>::empty()
    } else {
        lines_of(e.new_value@)
    }
}

/// The number of lines an edit writes.
pub open spec fn replacement_count(e: LineEdit) -> nat {
    if e.new_value@.len() == 0 {
        0
    } else {
        lines_of(e.new_value@).len()
    }
}

/// The numbers an edit carries are consistent with its action: a replace or
/// delete covers `start..=end` with `1 <= start`, an insert names one line.
pub open spec fn well_shaped(e: LineEdit) -> bool {
    &&& (e.action == EditAction::Replace || e.action == EditAction::Delete) ==> 1 <= e.start_line
        <= e.end_line
    &&& e.action == EditAction::InsertAfter ==> e.end_line == e.start_line
}

/// The anchors an edit must carry are present.
pub open spec fn anchors_present(e: LineEdit) -> bool {
    &&& spec_requires_existing_line_anchor(e) ==> e.start_anchor is Some
    &&& spec_requires_end_hash(e) ==> e.end_anchor is Some
}

/// An edit as `parse_line_edit` produces it.
pub open spec fn well_formed(e: LineEdit) -> bool {
    well_shaped(e) && anchors_present(e)
}

/// First 0-based index of the original lines that the edit replaces (or,
/// for an insert, the index it inserts before).
pub open spec fn region_start(e: LineEdit) -> int {
    if e.action == EditAction::InsertAfter {
        e.start_line as int
    } else {
        e.start_line - 1
    }
}

/// One past the last 0-based index that the edit replaces.
pub open spec fn region_end(e: LineEdit) -> int {
    if e.action == EditAction::InsertAfter {
        e.start_line as int
    } else {
        e.end_line as int
    }
}

impl LineEdit {
    pub fn requires_existing_line_anchor(&self) -> (r: bool)
        ensures
            r == spec_requires_existing_line_anchor(*self),
    {
        !(self.action == EditAction::InsertAfter && self.start_line == 0)
    }

    pub fn requires_end_hash(&self) -> (r: bool)
        ensures
            r == spec_requires_end_hash(*self),
    {
        (self.action == EditAction::Replace || self.action == EditAction::Delete) && self.end_line
            > self.start_line
    }

    pub fn replacement_line_count(&self) -> (r: usize)
        ensures
            r == replacement_count(*self),
    {
        let cs = chars_of(self.new_value.as_str());
        if cs.len() == 0 {
            0
        } else {
            let ls = split_lines(cs.as_slice());
            ls.len()
        }
    }
}

// ---------------------------------------------------------------------------
// Ordering of edits and the no-overlap rule
// ---------------------------------------------------------------------------

/// Edits are taken in order of `start_line`, ties kept in input order.
pub open spec fn before(es: Seq<LineEdit>, a: int, b: int) -> bool {
    es[a].start_line < es[b].start_line || (es[a].start_line == es[b].start_line && a < b)
}

pub open spec fn is_index(es: Seq<LineEdit>, a: int) -> bool {
    0 <= a < es.len()
}

/// `b` comes directly after `a` in the order of edits.
pub open spec fn adjacent(es: Seq<LineEdit>, a: int, b: int) -> bool {
    &&& is_index(es, a)
    &&& is_index(es, b)
    &&& before(es, a, b)
    &&& !exists|c: int| is_index(es, c) && #[trigger] before(es, a, c) && before(es, c, b)
}

/// Both edits insert at the top of the file.
pub open spec fn both_insert_at_top(es: Seq<LineEdit>, a: int, b: int) -> bool {
    es[a].start_line == 0 && es[b].start_line == 0
}

/// The later edit starts on or before the last line of the earlier one.
pub open spec fn ranges_overlap(es: Seq<LineEdit>, a: int, b: int) -> bool {
    es[b].start_line <= es[a].end_line && es[b].start_line > 0
}

/// Two consecutive edits that may not stand together.
pub open spec fn bad_pair(es: Seq<LineEdit>, a: int, b: int) -> bool {
    adjacent(es, a, b) && (both_insert_at_top(es, a, b) || ranges_overlap(es, a, b))
}

/// The first offending pair in the order of edits.
pub open spec fn first_bad_pair(es: Seq<LineEdit>, a: int, b: int) -> bool {
    &&& bad_pair(es, a, b)
    &&& forall|c: int, d: int| #[trigger] bad_pair(es, c, d) ==> !before(es, c, a)
}

/// No two consecutive edits conflict or overlap.
pub open spec fn no_bad_pair(es: Seq<LineEdit>) -> bool {
    forall|a: int, b: int| !#[trigger] bad_pair(es, a, b)
}

/// Why a batch of edits for one file was refused.
#[derive(Debug, Clone, Copy, PartialEq, Eq, Structural)]
pub enum OverlapError {
    /// Both edits insert at the beginning of the file.
    ConflictingTopInserts { first: usize, second: usize },
    /// The second edit starts inside the first one's range.
    Overlapping { first: usize, second: usize },
}

pub proof fn lemma_before_total(es: Seq<LineEdit>, a: int, b: int)
    requires
        a != b,
    ensures
        before(es, a, b) || before(es, b, a),
{
}

pub proof fn lemma_before_transitive(es: Seq<LineEdit>, a: int, b: int, c: int)
    requires
        before(es, a, b),
        before(es, b, c),
    ensures
        before(es, a, c),
{
}

/// An edit has at most one direct successor.
pub proof fn lemma_adjacent_unique(es: Seq<LineEdit>, a: int, b: int, d: int)
    requires
        adjacent(es, a, b),
        adjacent(es, a, d),
    ensures
        b == d,
{
    if b != d {
        lemma_before_total(es, b, d);
        if before(es, b, d) {
            assert(is_index(es, b) && before(es, a, b) && before(es, b, d));
        } else {
            assert(is_index(es, d) && before(es, a, d) && before(es, d, b));
        }
    }
}

/// The direct successor of edit `a`, if any.
fn successor(edits: &[LineEdit], a: usize) -> (r: Option<usize>)
    requires
        a < edits.len(),
    ensures
        r matches Some(b) ==> adjacent(edits@, a as int, b as int),
        r is None ==> forall|c: int| is_index(edits@, c) ==> !#[trigger] before(
            edits@,
            a as int,
            c,
        ),
{
    let ghost es = edits@;
    let mut best: Option<usize> = None;
    let mut i: usize = 0;
    while i < edits.len()
        invariant
            es == edits@,
            a < edits.len(),
            i <= edits.len(),
            best matches Some(x) ==> x < i && before(es, a as int, x as int) && forall|c: int|
                0 <= c < i && #[trigger] before(es, a as int, c) ==> !before(es, c, x as int),
            best is None ==> forall|c: int| 0 <= c < i ==> !#[trigger] before(es, a as int, c),
        decreases edits.len() - i,
    {
        let i_after_a = edits[a].start_line < edits[i].start_line || (edits[a].start_line
            == edits[i].start_line && a < i);
        if i_after_a {
            match best {
                None => {
                    best = Some(i);
                    proof {
                        assert forall|c: int|
                            0 <= c < i + 1 && #[trigger] before(es, a as int, c) implies !before(
                            es,
                            c,
                            i as int,
                        ) by {
                            if c == i {
                            } else {
                                assert(!before(es, a as int, c));
                            }
                        }
                    }
                },
                Some(x) => {
                    let i_before_x = edits[i].start_line < edits[x].start_line || (
                    edits[i].start_line == edits[x].start_line && i < x);
                    if i_before_x {
                        best = Some(i);
                        proof {
                            assert forall|c: int|
                                0 <= c < i + 1 && #[trigger] before(es, a as int, c) implies !before(
                                es,
                                c,
                                i as int,
                            ) by {
                                if c < i && before(es, c, i as int) {
                                    lemma_before_transitive(es, c, i as int, x as int);
                                }
                            }
                        }
                    } else {
                        proof {
                            assert forall|c: int|
                                0 <= c < i + 1 && #[trigger] before(es, a as int, c) implies !before(
                                es,
                                c,
                                x as int,
                            ) by {
                                if c == i {
                                    if before(es, c, x as int) {
                                    }
                                }
                            }
                        }
                    }
                },
            }
        }
        i += 1;
    }
    proof {
        if let Some(x) = best {
            assert forall|c: int| is_index(es, c) && #[trigger] before(es, a as int, c) implies !before(
                es,
                c,
                x as int,
            ) by {}
        }
    }
    best
}

/// Refuse a batch in which two edits insert at the top of the file, or in
/// which an edit starts inside the range of the edit before it (edits taken
/// in order of start line, ties in input order). The first such pair in
/// that order is reported, by input index.
pub fn validate_edits_do_not_overlap(edits: &[LineEdit]) -> (r: Result<(), OverlapError>)
    ensures
        r is Ok <==> no_bad_pair(edits@),
        r matches Err(OverlapError::ConflictingTopInserts { first, second }) ==> first_bad_pair(
            edits@,
            first as int,
            second as int,
        ) && both_insert_at_top(edits@, first as int, second as int),
        r matches Err(OverlapError::Overlapping { first, second }) ==> first_bad_pair(
            edits@,
            first as int,
            second as int,
        ) && !both_insert_at_top(edits@, first as int, second as int) && ranges_overlap(
            edits@,
            first as int,
            second as int,
        ),
{
    let ghost es = edits@;
    let mut found: Option<(usize, usize)> = None;
    let mut i: usize = 0;
    while i < edits.len()
        invariant
            es == edits@,
            i <= edits.len(),
            found matches Some((x, y)) ==> x < i && bad_pair(es, x as int, y as int) && forall|
                c: int,
                d: int,
            | 0 <= c < i && #[trigger] bad_pair(es, c, d) ==> !before(es, c, x as int),
            found is None ==> forall|c: int, d: int| 0 <= c < i ==> !#[trigger] bad_pair(es, c, d),
        decreases edits.len() - i,
    {
        let succ = successor(edits, i);
        match succ {
            Some(b) => {
                let violates = (edits[i].start_line == 0 && edits[b].start_line == 0) || (
                edits[b].start_line <= edits[i].end_line && edits[b].start_line > 0);
                proof {
                    assert forall|d: int| #[trigger] bad_pair(es, i as int, d) implies d == b by {
                        lemma_adjacent_unique(es, i as int, b as int, d);
                    }
                }
                if violates {
                    match found {
                        None => {
                            found = Some((i, b));
                        },
                        Some((x, y)) => {
                            let i_before_x = edits[i].start_line < edits[x].start_line || (
                            edits[i].start_line == edits[x].start_line && i < x);
                            if i_before_x {
                                found = Some((i, b));
                                proof {
                                    assert forall|c: int, d: int|
                                        0 <= c < i + 1 && #[trigger] bad_pair(es, c, d) implies !before(
                                        es,
                                        c,
                                        i as int,
                                    ) by {
                                        if c < i && before(es, c, i as int) {
                                            lemma_before_transitive(es, c, i as int, x as int);
                                        }
                                    }
                                }
                            } else {
                                proof {
                                    assert forall|c: int, d: int|
                                        0 <= c < i + 1 && #[trigger] bad_pair(es, c, d) implies !before(
                                        es,
                                        c,
                                        x as int,
                                    ) by {
                                        if c == i {
                                            if before(es, c, x as int) {
                                            }
                                        }
                                    }
                                }
                            }
                        },
                    }
                } else {
                    proof {
                        assert forall|c: int, d: int|
                            0 <= c < i + 1 && #[trigger] bad_pair(es, c, d) implies (found matches Some(
                            (x, y),
                        ) ==> !before(es, c, x as int)) by {
                            if c == i {
                                lemma_adjacent_unique(es, i as int, b as int, d);
                            }
                        }
                        assert forall|c: int, d: int|
                            c == i implies !#[trigger] bad_pair(es, c, d) by {
                            if bad_pair(es, c, d) {
                                lemma_adjacent_unique(es, i as int, b as int, d);
                            }
                        }
                    }
                }
            },
            None => {
                proof {
                    assert forall|c: int, d: int| c == i implies !#[trigger] bad_pair(es, c, d) by {
                        if bad_pair(es, c, d) {
                            assert(before(es, i as int, d));
                        }
                    }
                }
            },
        }
        i += 1;
    }
    match found {
        None => Ok(()),
        Some((x, y)) => {
            if edits[x].start_line == 0 && edits[y].start_line == 0 {
                Err(OverlapError::ConflictingTopInserts { first: x, second: y })
            } else {
                Err(OverlapError::Overlapping { first: x, second: y })
            }
        },
    }
}

// ---------------------------------------------------------------------------
// Applying edits
// ---------------------------------------------------------------------------

/// Edit `x` appears in `perm`.
pub open spec fn lists(perm: Seq<usize>, x: int) -> bool {
    exists|k: int| 0 <= k < perm.len() && #[trigger] perm[k] == x
}

/// `perm` lists every edit exactly once, in order of start line.
pub open spec fn arranged(es: Seq<LineEdit>, perm: Seq<usize>) -> bool {
    &&& perm.len() == es.len()
    &&& forall|k: int| 0 <= k < perm.len() ==> #[trigger] perm[k] < es.len()
    &&& forall|x: int| 0 <= x < es.len() ==> #[trigger] lists(perm, x)
    &&& forall|i: int, j: int| 0 <= i < j < perm.len() ==> before(es, #[trigger] perm[i] as int, #[trigger] perm[j] as int)
}

/// The edits in the order `perm` gives.
pub open spec fn in_order(es: Seq<LineEdit>, perm: Seq<usize>) -> Seq<LineEdit> {
    Seq::new(perm.len(), |k: int| es[perm[k] as int])
}

/// The lines from `pos` on, with the (ordered, disjoint) edits `es` applied.
pub open spec fn splice_from(lines: Seq<Seq<char>>, es: Seq<LineEdit>, pos: int) -> Seq<Seq<char>>
    decreases es.len(),
{
    if es.len() == 0 {
        lines.subrange(pos, lines.len() as int)
    } else {
        lines.subrange(pos, region_start(es[0])) + replacement(es[0]) + splice_from(
            lines,
            es.drop_first(),
            region_end(es[0]),
        )
    }
}

/// The lines after applying the edits `es` (in the order `perm`).
pub open spec fn applied(lines: Seq<Seq<char>>, es: Seq<LineEdit>, perm: Seq<usize>) -> Seq<Seq<char>> {
    splice_from(lines, in_order(es, perm), 0)
}

/// A batch that can be applied to `line_count` lines: every edit is well
/// shaped and inside the file, and no two consecutive edits conflict.
pub open spec fn applicable(es: Seq<LineEdit>, line_count: nat) -> bool {
    &&& forall|k: int| 0 <= k < es.len() ==> #[trigger] well_shaped(es[k])
    &&& forall|k: int| 0 <= k < es.len() ==> #[trigger] region_end(es[k]) <= line_count
    &&& no_bad_pair(es)
}

/// In an arrangement the same edit never appears twice.
pub proof fn lemma_arranged_injective(es: Seq<LineEdit>, p: Seq<usize>, i: int, j: int)
    requires
        arranged(es, p),
        0 <= i < p.len(),
        0 <= j < p.len(),
        i != j,
    ensures
        p[i] != p[j],
{
    if i < j {
        assert(before(es, p[i] as int, p[j] as int));
    } else {
        assert(before(es, p[j] as int, p[i] as int));
    }
}

proof fn lemma_arranged_agree_upto(es: Seq<LineEdit>, p: Seq<usize>, q: Seq<usize>, i: int)
    requires
        arranged(es, p),
        arranged(es, q),
        0 <= i < p.len(),
    ensures
        forall|j: int| 0 <= j <= i ==> p[j] == q[j],
    decreases i,
{
    if i > 0 {
        lemma_arranged_agree_upto(es, p, q, i - 1);
    }
    let x = p[i] as int;
    let y = q[i] as int;
    if x != y {
        assert(lists(q, x) && lists(p, y));
        let jq = choose|k: int| 0 <= k < q.len() && #[trigger] q[k] == x;
        let jp = choose|k: int| 0 <= k < p.len() && #[trigger] p[k] == y;
        if jq < i {
            assert(p[jq] == q[jq]);
            lemma_arranged_injective(es, p, jq, i);
        }
        if jp < i {
            assert(p[jp] == q[jp]);
            lemma_arranged_injective(es, q, jp, i);
        }
        assert(jq > i && jp > i);
        assert(before(es, q[i] as int, q[jq] as int));
        assert(before(es, p[i] as int, p[jp] as int));
    }
}

/// Two arrangements of the same edits are the same sequence.
pub proof fn lemma_arranged_unique(es: Seq<LineEdit>, p: Seq<usize>, q: Seq<usize>)
    requires
        arranged(es, p),
        arranged(es, q),
    ensures
        p == q,
{
    if p.len() > 0 {
        lemma_arranged_agree_upto(es, p, q, p.len() - 1);
    }
    assert(p =~= q);
}

/// Consecutive edits of an arrangement are direct successors in the order.
pub proof fn lemma_arranged_adjacent(es: Seq<LineEdit>, perm: Seq<usize>, k: int)
    requires
        arranged(es, perm),
        0 <= k < perm.len() - 1,
    ensures
        adjacent(es, perm[k] as int, perm[k + 1] as int),
{
    let a = perm[k] as int;
    let b = perm[k + 1] as int;
    assert(before(es, a, b));
    assert forall|c: int| is_index(es, c) && #[trigger] before(es, a, c) implies !before(es, c, b) by {
        assert(lists(perm, c));
        let j = choose|j: int| 0 <= j < perm.len() && #[trigger] perm[j] == c;
        if j < k {
            assert(before(es, perm[j] as int, perm[k] as int));
        } else if j == k {
        } else if j == k + 1 {
        } else {
            assert(before(es, perm[k + 1] as int, perm[j] as int));
        }
    }
}

/// In an applicable batch taken in order, each edit's region ends before
/// the next one's begins, and every region lies inside the file.
pub proof fn lemma_regions_ordered(es: Seq<LineEdit>, perm: Seq<usize>, n: nat)
    requires
        arranged(es, perm),
        applicable(es, n),
    ensures
        forall|k: int| 0 <= k < perm.len() ==> {
            let e = #[trigger] in_order(es, perm)[k];
            0 <= region_start(e) <= region_end(e) <= n
        },
        forall|k: int| 0 <= k < perm.len() - 1 ==> region_end(#[trigger] in_order(es, perm)[k])
            <= region_start(in_order(es, perm)[k + 1]),
{
    let ord = in_order(es, perm);
    assert forall|k: int| 0 <= k < perm.len() implies {
        let e = #[trigger] ord[k];
        0 <= region_start(e) <= region_end(e) <= n
    } by {
        assert(well_shaped(es[perm[k] as int]));
        assert(region_end(es[perm[k] as int]) <= n);
    }
    assert forall|k: int| 0 <= k < perm.len() - 1 implies region_end(#[trigger] ord[k])
        <= region_start(ord[k + 1]) by {
        let a = perm[k] as int;
        let b = perm[k + 1] as int;
        lemma_arranged_adjacent(es, perm, k);
        assert(!bad_pair(es, a, b));
        assert(well_shaped(es[a]));
        assert(well_shaped(es[b]));
    }
}

/// Indices of the edits, ordered by start line (ties in input order).
pub fn arrange_edits(edits: &[LineEdit]) -> (perm: Vec<usize>)
    ensures
        arranged(edits@, perm@),
{
    let ghost es = edits@;
    let mut perm: Vec<usize> = Vec::new();
    let mut i: usize = 0;
    while i < edits.len()
        invariant
            es == edits@,
            i <= edits.len(),
            perm.len() == i,
            forall|k: int| 0 <= k < perm.len() ==> #[trigger] perm@[k] < i,
            forall|x: int| 0 <= x < i ==> #[trigger] lists(perm@, x),
            forall|a: int, b: int|
                0 <= a < b < perm.len() ==> before(es, #[trigger] perm@[a] as int, #[trigger] perm@[b] as int),
        decreases edits.len() - i,
    {
        let mut pos: usize = 0;
        while pos < perm.len() && (edits[perm[pos]].start_line <= edits[i].start_line)
            invariant
                es == edits@,
                i < edits.len(),
                perm.len() == i,
                pos <= perm.len(),
                forall|k: int| 0 <= k < perm.len() ==> #[trigger] perm@[k] < i,
                forall|k: int| 0 <= k < pos ==> before(es, #[trigger] perm@[k] as int, i as int),
            decreases perm.len() - pos,
        {
            pos += 1;
        }
        let ghost old_perm = perm@;
        perm.insert(pos, i);
        proof {
            old_perm.insert_ensures(pos as int, i);
            assert forall|k: int| 0 <= k < perm.len() implies #[trigger] perm@[k] < i + 1 by {
                if k < pos {
                } else if k == pos {
                } else {
                    assert(perm@[k] == old_perm[k - 1]);
                }
            }
            assert forall|x: int| 0 <= x < i + 1 implies #[trigger] lists(perm@, x) by {
                if x == i {
                    assert(perm@[pos as int] == x);
                } else {
                    assert(lists(old_perm, x));
                    let j = choose|j: int| 0 <= j < old_perm.len() && #[trigger] old_perm[j] == x;
                    if j < pos {
                        assert(perm@[j] == x);
                    } else {
                        assert(perm@[j + 1] == x);
                    }
                }
            }
            if pos < old_perm.len() {
                assert(!before(es, old_perm[pos as int] as int, i as int));
                lemma_before_total(es, old_perm[pos as int] as int, i as int);
            }
            assert forall|a: int, b: int| 0 <= a < b < perm.len() implies before(
                es,
                #[trigger] perm@[a] as int,
                #[trigger] perm@[b] as int,
            ) by {
                if b < pos {
                    assert(perm@[a] == old_perm[a] && perm@[b] == old_perm[b]);
                } else if b == pos {
                    assert(perm@[a] == old_perm[a]);
                } else if a < pos {
                    assert(perm@[a] == old_perm[a] && perm@[b] == old_perm[b - 1]);
                } else if a == pos {
                    assert(perm@[b] == old_perm[b - 1]);
                    if b - 1 > pos {
                        assert(before(es, old_perm[pos as int] as int, old_perm[b - 1] as int));
                        lemma_before_transitive(
                            es,
                            i as int,
                            old_perm[pos as int] as int,
                            old_perm[b - 1] as int,
                        );
                    }
                } else {
                    assert(perm@[a] == old_perm[a - 1] && perm@[b] == old_perm[b - 1]);
                }
            }
        }
        i += 1;
    }
    perm
}

/// Appends `lines[from..to]`.
fn push_line_range(out: &mut Vec<Vec<char>>, lines: &Vec<Vec<char>>, from: usize, to: usize)
    requires
        from <= to <= lines.len(),
    ensures
        seqs_of(final(out)@) == seqs_of(old(out)@) + seqs_of(lines@).subrange(from as int, to as int),
{
    let mut i = from;
    while i < to
        invariant
            from <= i <= to <= lines.len(),
            seqs_of(out@) == seqs_of(old(out)@) + seqs_of(lines@).subrange(from as int, i as int),
        decreases to - i,
    {
        let ghost before_push = seqs_of(out@);
        out.push(copy_chars(lines[i].as_slice()));
        assert(seqs_of(out@) =~= before_push.push(lines@[i as int]@));
        assert(seqs_of(lines@).subrange(from as int, i + 1) =~= seqs_of(lines@).subrange(
            from as int,
            i as int,
        ).push(lines@[i as int]@));
        i += 1;
    }
}

/// Appends copies of `src` to `out`.
fn push_lines(out: &mut Vec<Vec<char>>, src: &Vec<Vec<char>>)
    ensures
        seqs_of(final(out)@) == seqs_of(old(out)@) + seqs_of(src@),
{
    let ghost start = seqs_of(out@);
    let mut r: usize = 0;
    while r < src.len()
        invariant
            r <= src.len(),
            seqs_of(out@) == start + seqs_of(src@).take(r as int),
        decreases src.len() - r,
    {
        let ghost bo = seqs_of(out@);
        out.push(copy_chars(src[r].as_slice()));
        assert(seqs_of(out@) =~= bo.push(src@[r as int]@));
        assert(seqs_of(src@).take(r + 1) =~= seqs_of(src@).take(r as int).push(src@[r as int]@));
        r += 1;
    }
    assert(seqs_of(src@).take(src.len() as int) =~= seqs_of(src@));
}

/// The lines an edit writes, as character vectors.
fn replacement_lines(e: &LineEdit) -> (r: Vec<Vec<char>>)
    ensures
        seqs_of(r@) == replacement(*e),
{
    let cs = chars_of(e.new_value.as_str());
    if cs.len() == 0 {
        let r: Vec<Vec<char>> = Vec::new();
        assert(seqs_of(r@) =~= replacement(*e));
        r
    } else {
        split_lines(cs.as_slice())
    }
}

/// Lines an edit takes away from the original.
pub open spec fn orig_count(e: LineEdit) -> int {
    region_end(e) - region_start(e)
}

/// How far the edits before position `k` (in order) shift later lines.
pub open spec fn line_delta(ord: Seq<LineEdit>, k: int) -> int
    decreases k,
{
    if k <= 0 {
        0
    } else {
        line_delta(ord, k - 1) + replacement_count(ord[k - 1]) - orig_count(ord[k - 1])
    }
}

/// Where the lines written by edit `k` (in order) begin in the new text.
pub open spec fn new_start(ord: Seq<LineEdit>, k: int) -> int {
    region_start(ord[k]) + line_delta(ord, k)
}

#[verifier::rlimit(40)]
/// Applies an applicable batch of edits to `lines`; also returns the order
/// in which the edits were taken and where each one's lines begin in the
/// result.
pub fn apply_edits_recording(lines: &Vec<Vec<char>>, edits: &[LineEdit]) -> (r: (
    Vec<Vec<char>>,
    Vec<usize>,
    Vec<usize>,
))
    requires
        applicable(edits@, lines.len() as nat),
    ensures
        arranged(edits@, r.1@),
        seqs_of(r.0@) == applied(seqs_of(lines@), edits@, r.1@),
        r.2@.len() == edits@.len(),
        forall|k: int| 0 <= k < r.2@.len() ==> #[trigger] r.2@[k] == new_start(
            in_order(edits@, r.1@),
            k,
        ),
        forall|k: int| 0 <= k < r.2@.len() ==> #[trigger] r.2@[k] + replacement_count(
            in_order(edits@, r.1@)[k],
        ) <= r.0@.len(),
{
    let ghost es = edits@;
    let ghost ls = seqs_of(lines@);
    let perm = arrange_edits(edits);
    let ghost ord = in_order(es, perm@);
    proof {
        lemma_regions_ordered(es, perm@, lines.len() as nat);
    }
    let mut out: Vec<Vec<char>> = Vec::new();
    let mut starts: Vec<usize> = Vec::new();
    let mut pos: usize = 0;
    let mut k: usize = 0;
    proof {
        assert(ord.skip(0) =~= ord);
    }
    while k < perm.len()
        invariant
            es == edits@,
            ls == seqs_of(lines@),
            ord == in_order(es, perm@),
            arranged(es, perm@),
            k <= perm.len(),
            pos <= lines.len(),
            k > 0 ==> pos as int == region_end(ord[k - 1]),
            k == 0 ==> pos == 0,
            forall|j: int| 0 <= j < perm.len() ==> {
                let e = #[trigger] ord[j];
                0 <= region_start(e) <= region_end(e) <= lines.len()
            },
            forall|j: int| 0 <= j < perm.len() - 1 ==> region_end(#[trigger] ord[j])
                <= region_start(ord[j + 1]),
            seqs_of(out@) + splice_from(ls, ord.skip(k as int), pos as int) == splice_from(ls, ord, 0),
            out@.len() == pos + line_delta(ord, k as int),
            starts@.len() == k,
            forall|j: int| 0 <= j < k ==> #[trigger] starts@[j] == new_start(ord, j),
            forall|j: int| 0 <= j < k ==> #[trigger] starts@[j] + replacement_count(ord[j]) <= out@.len(),
        decreases perm.len() - k,
    {
        let e = &edits[perm[k]];
        assert(*e == ord[k as int]);
        let start: usize = if e.action == EditAction::InsertAfter {
            e.start_line
        } else {
            e.start_line - 1
        };
        let end: usize = if e.action == EditAction::InsertAfter {
            e.start_line
        } else {
            e.end_line
        };
        proof {
            if k > 0 {
                assert(region_end(ord[k - 1]) <= region_start(ord[k as int]));
            }
            let rest = ord.skip(k as int);
            assert(rest[0] == ord[k as int]);
            assert(rest.drop_first() =~= ord.skip(k + 1));
        }
        let ghost before_out = seqs_of(out@);
        assert(before_out.len() == out@.len());
        push_line_range(&mut out, lines, pos, start);
        assert(seqs_of(out@).len() == out@.len());
        assert(out@.len() == start + line_delta(ord, k as int));
        starts.push(out.len());
        let repl = replacement_lines(e);
        push_lines(&mut out, &repl);
        assert(seqs_of(out@) =~= before_out + ls.subrange(pos as int, start as int) + replacement(
            *e,
        ));
        assert(seqs_of(out@).len() == out@.len());
        assert(seqs_of(repl@).len() == replacement_count(*e));
        pos = end;
        k += 1;
    }
    push_line_range(&mut out, lines, pos, lines.len());
    proof {
        assert(ord.skip(perm.len() as int).len() == 0);
        assert(seqs_of(out@) == splice_from(ls, ord, 0));
    }
    (out, perm, starts)
}

/// Applies an applicable batch of edits to `lines`.
pub fn apply_edits_to_lines(lines: &Vec<Vec<char>>, edits: &[LineEdit]) -> (out: Vec<Vec<char>>)
    requires
        applicable(edits@, lines.len() as nat),
    ensures
        exists|perm: Seq<usize>| arranged(edits@, perm),
        forall|perm: Seq<usize>| #[trigger] arranged(edits@, perm) ==> seqs_of(out@) == applied(
            seqs_of(lines@),
            edits@,
            perm,
        ),
{
    let (out, perm, _starts) = apply_edits_recording(lines, edits);
    proof {
        assert forall|p: Seq<usize>| #[trigger] arranged(edits@, p) implies seqs_of(out@) == applied(
            seqs_of(lines@),
            edits@,
            p,
        ) by {
            lemma_arranged_unique(edits@, perm@, p);
        }
    }
    out
}

/// The views of a slice of string slices.
pub open spec fn str_views(v: Seq<&str>) -> Seq<Seq<char>> {
    Seq::new(v.len(), |i: int| v[i]@)
}

/// The views of a sequence of strings.
pub open spec fn string_views(v: Seq<String>) -> Seq<Seq<char>> {
    Seq::new(v.len(), |i: int| v[i]@)
}

/// Character vectors of a slice of string slices.
pub fn lines_from_strs(v: &[&str]) -> (out: Vec<Vec<char>>)
    ensures
        seqs_of(out@) == str_views(v@),
{
    let mut out: Vec<Vec<char>> = Vec::new();
    let mut i: usize = 0;
    while i < v.len()
        invariant
            i <= v.len(),
            seqs_of(out@) == str_views(v@).take(i as int),
        decreases v.len() - i,
    {
        let ghost before = seqs_of(out@);
        out.push(chars_of(v[i]));
        assert(seqs_of(out@) =~= before.push(v@[i as int]@));
        assert(str_views(v@).take(i + 1) =~= str_views(v@).take(i as int).push(v@[i as int]@));
        i += 1;
    }
    assert(str_views(v@).take(v.len() as int) =~= str_views(v@));
    out
}

/// Character vectors of a slice of strings.
pub fn lines_from_strings(v: &[String]) -> (out: Vec<Vec<char>>)
    ensures
        seqs_of(out@) == string_views(v@),
{
    let mut out: Vec<Vec<char>> = Vec::new();
    let mut i: usize = 0;
    while i < v.len()
        invariant
            i <= v@.len(),
            seqs_of(out@) == string_views(v@).take(i as int),
        decreases v@.len() - i,
    {
        let ghost before = seqs_of(out@);
        out.push(chars_of(v[i].as_str()));
        assert(seqs_of(out@) =~= before.push(v@[i as int]@));
        assert(string_views(v@).take(i + 1) =~= string_views(v@).take(i as int).push(v@[i as int]@));
        i += 1;
    }
    assert(string_views(v@).take(v@.len() as int) =~= string_views(v@));
    out
}

/// Strings holding the given character vectors.
pub fn strings_from_lines(v: &Vec<Vec<char>>) -> (out: Vec<String>)
    ensures
        string_views(out@) == seqs_of(v@),
{
    let mut out: Vec<String> = Vec::new();
    let mut i: usize = 0;
    while i < v.len()
        invariant
            i <= v.len(),
            string_views(out@) == seqs_of(v@).take(i as int),
        decreases v.len() - i,
    {
        let ghost before = string_views(out@);
        out.push(string_from_chars(v[i].as_slice()));
        assert(string_views(out@) =~= before.push(v@[i as int]@));
        assert(seqs_of(v@).take(i + 1) =~= seqs_of(v@).take(i as int).push(v@[i as int]@));
        i += 1;
    }
    assert(seqs_of(v@).take(v.len() as int) =~= seqs_of(v@));
    out
}

/// Pure apply function: applies the edits to the given lines. Edits are
/// taken from the highest start line down, so each one addresses the
/// original line numbers; for a batch that passed validation this is the
/// same as splicing every edit's lines into its own region.
pub fn apply_edits(orig_lines: &[&str], edits: &[LineEdit]) -> (out: Vec<String>)
    requires
        applicable(edits@, orig_lines@.len() as nat),
    ensures
        exists|perm: Seq<usize>| arranged(edits@, perm),
        forall|perm: Seq<usize>| #[trigger] arranged(edits@, perm) ==> string_views(out@)
            == applied(str_views(orig_lines@), edits@, perm),
{
    let lines = lines_from_strs(orig_lines);
    assert(seqs_of(lines@).len() == lines@.len());
    let out = apply_edits_to_lines(&lines, edits);
    strings_from_lines(&out)
}

} // verus!
