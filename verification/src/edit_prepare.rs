//! Checking each edit's anchors against the current file content and
//! preparing the new content of one file from a batch of edits.
use vstd::prelude::*;
use crate::text::{chars_of, copy_chars, join, join_chars, lines_of, seqs_of, split_lines, string_from_chars, has_char, lemma_lines_no_newline, lemma_lines_of_join_len};
use crate::hashline::{line_hash, prefix_hash, prefix_state, hashlines_of, is_anchor, line_hash_chars, prefix_hash_chars, prefix_step_chars, hashlines_chars, FNV_OFFSET, ANCHOR_LEN, all_hex_exec};
use crate::edit::{EditAction, LineEdit, OverlapError, well_formed, applicable, arranged, applied, in_order, no_bad_pair, first_bad_pair, both_insert_at_top, ranges_overlap, replacement_count, new_start, spec_requires_existing_line_anchor, spec_requires_end_hash, validate_edits_do_not_overlap, apply_edits_recording, lemma_arranged_unique, string_views};

verus! {

/// Why an edit's anchors do not match the file.
#[derive(Debug, Clone, Copy, PartialEq, Eq, Structural)]
pub enum AnchorError {
    /// The start line is past the end of the file.
    LineOutOfRange { line: usize, line_count: usize },
    /// The end line of a replace or delete is past the end of the file.
    EndLineOutOfRange { line: usize, line_count: usize },
    /// The start anchor is not six hexadecimal digits.
    InvalidAnchor { line: usize },
    /// The start line's content changed.
    StaleAnchor { line: usize },
    /// Content before the start line changed.
    StalePrefix { line: usize },
    /// The end anchor is not six hexadecimal digits.
    InvalidEndAnchor { line: usize },
    /// The end line's content changed.
    StaleEndAnchor { line: usize },
    /// Content before the end line changed.
    StaleEndPrefix { line: usize },
}

/// Why a batch of edits for one file could not be prepared.
#[derive(Debug, Clone, Copy, PartialEq, Eq, Structural)]
pub enum PrepareError {
    Overlap(OverlapError),
    Anchor(AnchorError),
}

/// The outcome of checking one edit's anchors against lines `ls`
/// (`None` when the edit may be applied).
pub open spec fn anchor_check(e: LineEdit, ls: Seq<Seq<char>>) -> Option<AnchorError> {
    let n = ls.len();
    if !spec_requires_existing_line_anchor(e) {
        None
    } else if e.start_line > n {
        Some(AnchorError::LineOutOfRange { line: e.start_line, line_count: n as usize })
    } else if (e.action == EditAction::Replace || e.action == EditAction::Delete) && e.end_line > n {
        Some(AnchorError::EndLineOutOfRange { line: e.end_line, line_count: n as usize })
    } else {
        let a = e.start_anchor->0@;
        let i = e.start_line - 1;
        if !is_anchor(a) {
            Some(AnchorError::InvalidAnchor { line: e.start_line })
        } else if line_hash(ls[i]) != a.take(2) {
            Some(AnchorError::StaleAnchor { line: e.start_line })
        } else if prefix_hash(prefix_state(ls, e.start_line as nat)) != a.skip(2) {
            Some(AnchorError::StalePrefix { line: e.start_line })
        } else if !spec_requires_end_hash(e) {
            None
        } else {
            let b = e.end_anchor->0@;
            let j = e.end_line - 1;
            if !is_anchor(b) {
                Some(AnchorError::InvalidEndAnchor { line: e.end_line })
            } else if line_hash(ls[j]) != b.take(2) {
                Some(AnchorError::StaleEndAnchor { line: e.end_line })
            } else if prefix_hash(prefix_state(ls, e.end_line as nat)) != b.skip(2) {
                Some(AnchorError::StaleEndPrefix { line: e.end_line })
            } else {
                None
            }
        }
    }
}

/// The prefix hash after each line: entry `i` belongs to line `i + 1`.
pub open spec fn prefix_hashes_of(ls: Seq<Seq<char>>) -> Seq<Seq<char>> {
    Seq::new(ls.len(), |i: int| prefix_hash(prefix_state(ls, (i + 1) as nat)))
}

/// The prefix hash after each line of `lines`.
pub fn compute_prefix_hashes(lines: &Vec<Vec<char>>) -> (r: Vec<Vec<char>>)
    ensures
        seqs_of(r@) == prefix_hashes_of(seqs_of(lines@)),
{
    let ghost ls = seqs_of(lines@);
    let mut state = FNV_OFFSET;
    let mut out: Vec<Vec<char>> = Vec::new();
    let mut i: usize = 0;
    while i < lines.len()
        invariant
            ls == seqs_of(lines@),
            i <= lines.len(),
            state == prefix_state(ls, i as nat),
            seqs_of(out@) == prefix_hashes_of(ls).take(i as int),
        decreases lines.len() - i,
    {
        state = prefix_step_chars(state, lines[i].as_slice());
        let h = prefix_hash_chars(state);
        let ghost before = seqs_of(out@);
        out.push(h);
        assert(seqs_of(out@) =~= before.push(prefix_hash(prefix_state(ls, (i + 1) as nat))));
        assert(prefix_hashes_of(ls).take(i + 1) =~= prefix_hashes_of(ls).take(i as int).push(
            prefix_hash(prefix_state(ls, (i + 1) as nat)),
        ));
        i += 1;
    }
    assert(prefix_hashes_of(ls).take(lines.len() as int) =~= prefix_hashes_of(ls));
    out
}

/// Whether the anchor `a` matches line `line` (1-based) of `lines`:
/// `Ok(())`, or which half differs (`Err(false)`: the line's own hash,
/// `Err(true)`: the prefix hash).
fn compare_anchor(a: &[char], lines: &Vec<Vec<char>>, prefix_hashes: &Vec<Vec<char>>, line: usize) -> (r: Result<(), bool>)
    requires
        1 <= line <= lines.len(),
        seqs_of(prefix_hashes@) == prefix_hashes_of(seqs_of(lines@)),
        a@.len() == ANCHOR_LEN,
    ensures
        r is Ok <==> line_hash(seqs_of(lines@)[line - 1]) == a@.take(2) && prefix_hash(
            prefix_state(seqs_of(lines@), line as nat),
        ) == a@.skip(2),
        r == Err::<(), bool>(false) <==> line_hash(seqs_of(lines@)[line - 1]) != a@.take(2),
{
    let ghost ls = seqs_of(lines@);
    let h = line_hash_chars(lines[line - 1].as_slice());
    let expected_hash = [a[0], a[1]];
    assert(expected_hash@ =~= a@.take(2));
    if !crate::text::chars_eq(h.as_slice(), &expected_hash) {
        return Err(false);
    }
    let expected_prefix = [a[2], a[3], a[4], a[5]];
    assert(expected_prefix@ =~= a@.skip(2));
    assert(seqs_of(prefix_hashes@).len() == prefix_hashes@.len());
    assert(seqs_of(prefix_hashes@)[line - 1] == prefix_hashes@[line - 1]@);
    assert(prefix_hashes@.len() == ls.len());
    assert(prefix_hashes@[line - 1]@ == prefix_hash(prefix_state(ls, line as nat)));
    if !crate::text::chars_eq(prefix_hashes[line - 1].as_slice(), &expected_prefix) {
        return Err(true);
    }
    Ok(())
}

/// Check one edit's anchors against the current lines of the file.
pub fn validate_edit_anchors(edit: &LineEdit, lines: &Vec<Vec<char>>, prefix_hashes: &Vec<Vec<char>>) -> (r: Result<(), AnchorError>)
    requires
        well_formed(*edit),
        seqs_of(prefix_hashes@) == prefix_hashes_of(seqs_of(lines@)),
    ensures
        r is Ok <==> anchor_check(*edit, seqs_of(lines@)) is None,
        r matches Err(a) ==> anchor_check(*edit, seqs_of(lines@)) == Some(a),
{
    let ghost ls = seqs_of(lines@);
    let line_count = lines.len();
    assert(ls.len() == line_count);
    if !edit.requires_existing_line_anchor() {
        return Ok(());
    }
    if edit.start_line > line_count {
        return Err(AnchorError::LineOutOfRange { line: edit.start_line, line_count });
    }
    if (edit.action == EditAction::Replace || edit.action == EditAction::Delete) && edit.end_line
        > line_count {
        return Err(AnchorError::EndLineOutOfRange { line: edit.end_line, line_count });
    }
    let start_anchor = match &edit.start_anchor {
        Some(a) => chars_of(a.as_str()),
        None => { return Ok(()); },
    };
    if start_anchor.len() != ANCHOR_LEN || !all_hex_exec(start_anchor.as_slice()) {
        return Err(AnchorError::InvalidAnchor { line: edit.start_line });
    }
    match compare_anchor(start_anchor.as_slice(), lines, prefix_hashes, edit.start_line) {
        Err(false) => {
            return Err(AnchorError::StaleAnchor { line: edit.start_line });
        },
        Err(true) => {
            return Err(AnchorError::StalePrefix { line: edit.start_line });
        },
        Ok(()) => {},
    }
    if edit.requires_end_hash() {
        let end_anchor = match &edit.end_anchor {
            Some(a) => chars_of(a.as_str()),
            None => { return Ok(()); },
        };
        if end_anchor.len() != ANCHOR_LEN || !all_hex_exec(end_anchor.as_slice()) {
            return Err(AnchorError::InvalidEndAnchor { line: edit.end_line });
        }
        match compare_anchor(end_anchor.as_slice(), lines, prefix_hashes, edit.end_line) {
            Err(false) => {
                return Err(AnchorError::StaleEndAnchor { line: edit.end_line });
            },
            Err(true) => {
                return Err(AnchorError::StaleEndPrefix { line: edit.end_line });
            },
            Ok(()) => {},
        }
    }
    Ok(())
}

/// The edits of one file, checked and applied (not yet written).
#[derive(Debug)]
pub struct PreparedFileEdit {
    pub path: String,
    pub edits: Vec<LineEdit>,
    pub original_content: String,
    pub new_content: String,
    pub original_line_count: usize,
    pub new_hash_sections: Vec<String>,
}

/// Whether `s` ends with a line feed.
pub open spec fn ends_with_newline(s: Seq<char>) -> bool {
    s.len() > 0 && s.last() == '\n'
}

/// The new file content: the edited lines joined with `'\n'`, plus a final
/// `'\n'` when the original had one and the join does not.
pub open spec fn new_content_of(original: Seq<char>, edited: Seq<Seq<char>>) -> Seq<char> {
    let j = join(edited, seq!['\n']);
    if ends_with_newline(original) && !ends_with_newline(j) {
        j.push('\n')
    } else {
        j
    }
}

/// The anchored new lines written by edit `k` (in order): the anchored
/// lines of the new content from where that edit's lines begin, as many as
/// it writes (cut at the end of the file).
pub open spec fn section_at(ord: Seq<LineEdit>, k: int, hl: Seq<Seq<char>>) -> Seq<Seq<char>> {
    let s = new_start(ord, k);
    let e = if s + replacement_count(ord[k]) <= hl.len() {
        s + replacement_count(ord[k])
    } else {
        hl.len() as int
    };
    hl.subrange(s, e)
}

/// One block of fresh anchors per edit that wrote lines (in order of start
/// line), each block the anchored lines joined with `'\n'`.
pub open spec fn hash_sections(ord: Seq<LineEdit>, hl: Seq<Seq<char>>) -> Seq<Seq<char>>
    decreases ord.len(),
{
    if ord.len() == 0 {
        Seq::<Seq<char>>::empty()
    } else {
        let k = ord.len() - 1;
        let prev = hash_sections(ord.drop_last(), hl);
        if replacement_count(ord[k]) == 0 || section_at(ord, k, hl).len() == 0 {
            prev
        } else {
            prev.push(join(section_at(ord, k, hl), seq!['\n']))
        }
    }
}

/// The first edit (in input order) whose anchors do not match, if any.
pub open spec fn first_anchor_failure(es: Seq<LineEdit>, ls: Seq<Seq<char>>, j: int) -> bool {
    &&& 0 <= j < es.len()
    &&& anchor_check(es[j], ls) is Some
    &&& forall|i: int| 0 <= i < j ==> anchor_check(#[trigger] es[i], ls) is None
}

/// The overlap error reported for a batch is its first offending pair.
pub open spec fn overlap_outcome(es: Seq<LineEdit>, o: OverlapError) -> bool {
    match o {
        OverlapError::ConflictingTopInserts { first, second } => first_bad_pair(
            es,
            first as int,
            second as int,
        ) && both_insert_at_top(es, first as int, second as int),
        OverlapError::Overlapping { first, second } => first_bad_pair(es, first as int, second as int)
            && !both_insert_at_top(es, first as int, second as int) && ranges_overlap(
            es,
            first as int,
            second as int,
        ),
    }
}

proof fn lemma_hash_sections_prefix(ord: Seq<LineEdit>, k: int, hl: Seq<Seq<char>>)
    requires
        0 <= k <= ord.len(),
    ensures
        hash_sections(ord.take(k), hl) == (if k == 0 {
            Seq::<Seq<char>>::empty()
        } else {
            let prev = hash_sections(ord.take(k - 1), hl);
            if replacement_count(ord[k - 1]) == 0 || section_at(ord, k - 1, hl).len() == 0 {
                prev
            } else {
                prev.push(join(section_at(ord, k - 1, hl), seq!['\n']))
            }
        }),
{
    if k > 0 {
        let t = ord.take(k);
        assert(t.drop_last() =~= ord.take(k - 1));
        assert(t[k - 1] == ord[k - 1]);
        assert(new_start(t, k - 1) == new_start(ord, k - 1)) by {
            lemma_line_delta_take(ord, k, k - 1);
        }
        assert(section_at(t, k - 1, hl) == section_at(ord, k - 1, hl));
    }
}

proof fn lemma_line_delta_take(ord: Seq<LineEdit>, k: int, j: int)
    requires
        0 <= j < k <= ord.len(),
    ensures
        crate::edit::line_delta(ord.take(k), j) == crate::edit::line_delta(ord, j),
    decreases j,
{
    if j > 0 {
        lemma_line_delta_take(ord, k, j - 1);
    }
}

/// Check and apply the edits of one file whose current content is
/// `original_content`: the batch is refused when two consecutive edits
/// conflict, or when an edit's anchors do not match the content (the first
/// such edit in input order is reported); otherwise the new content and the
/// fresh anchors of the written lines are computed.
#[verifier::rlimit(60)]
pub fn prepare_file_edit(path: &str, original_content: &str, edits: Vec<LineEdit>) -> (r: Result<PreparedFileEdit, PrepareError>)
    requires
        forall|k: int| 0 <= k < edits@.len() ==> #[trigger] well_formed(edits@[k]),
    ensures
        r matches Err(PrepareError::Overlap(o)) ==> !no_bad_pair(edits@) && overlap_outcome(edits@, o),
        r matches Err(PrepareError::Anchor(a)) ==> no_bad_pair(edits@) && exists|j: int|
            first_anchor_failure(edits@, lines_of(original_content@), j) && anchor_check(
                #[trigger] edits@[j],
                lines_of(original_content@),
            ) == Some(a),
        r is Ok <==> no_bad_pair(edits@) && forall|j: int|
            0 <= j < edits@.len() ==> anchor_check(#[trigger] edits@[j], lines_of(original_content@)) is None,
        r matches Ok(p) ==> {
            &&& p.path@ == path@
            &&& p.edits@ == edits@
            &&& p.original_content@ == original_content@
            &&& p.original_line_count == lines_of(original_content@).len()
            &&& crate::edit::applicable(edits@, lines_of(original_content@).len())
            &&& exists|perm: Seq<usize>| arranged(edits@, perm)
            &&& forall|perm: Seq<usize>| #[trigger] arranged(edits@, perm) ==> {
                &&& p.new_content@ == new_content_of(
                    original_content@,
                    applied(lines_of(original_content@), edits@, perm),
                )
                &&& string_views(p.new_hash_sections@) == hash_sections(
                    in_order(edits@, perm),
                    hashlines_of(lines_of(p.new_content@)),
                )
            }
        },
{
    match validate_edits_do_not_overlap(edits.as_slice()) {
        Err(o) => {
            return Err(PrepareError::Overlap(o));
        },
        Ok(()) => {},
    }
    let ghost es = edits@;
    let content_chars = chars_of(original_content);
    let lines = split_lines(content_chars.as_slice());
    let ghost ls = seqs_of(lines@);
    assert(ls == lines_of(original_content@));
    let prefix_hashes = compute_prefix_hashes(&lines);
    let mut i: usize = 0;
    while i < edits.len()
        invariant
            es == edits@,
            ls == seqs_of(lines@),
            ls == lines_of(original_content@),
            no_bad_pair(es),
            seqs_of(prefix_hashes@) == prefix_hashes_of(ls),
            i <= edits.len(),
            forall|k: int| 0 <= k < es.len() ==> #[trigger] well_formed(es[k]),
            forall|j: int| 0 <= j < i ==> anchor_check(#[trigger] es[j], ls) is None,
        decreases edits.len() - i,
    {
        match validate_edit_anchors(&edits[i], &lines, &prefix_hashes) {
            Err(a) => {
                assert(first_anchor_failure(es, ls, i as int));
                assert(anchor_check(es[i as int], ls) == Some(a));
                return Err(PrepareError::Anchor(a));
            },
            Ok(()) => {},
        }
        i += 1;
    }
    proof {
        assert(ls.len() == lines.len());
        assert forall|k: int| 0 <= k < es.len() implies #[trigger] crate::edit::region_end(es[k])
            <= lines.len() by {
            assert(well_formed(es[k]));
            assert(anchor_check(es[k], ls) is None);
        }
        assert forall|k: int| 0 <= k < es.len() implies #[trigger] crate::edit::well_shaped(es[k]) by {
            assert(well_formed(es[k]));
        }
    }
    let (modified, perm, starts) = apply_edits_recording(&lines, edits.as_slice());
    let ghost ord = in_order(es, perm@);
    let nl = ['\n'];
    let mut new_chars = join_chars(&modified, &nl);
    assert(nl@ =~= seq!['\n']);
    let ghost joined = new_chars@;
    let ends_nl = content_chars.len() > 0 && content_chars[content_chars.len() - 1] == '\n';
    let joined_nl = new_chars.len() > 0 && new_chars[new_chars.len() - 1] == '\n';
    if ends_nl && !joined_nl {
        new_chars.push('\n');
    }
    assert(new_chars@ == new_content_of(original_content@, seqs_of(modified@)));
    let new_lines = split_lines(new_chars.as_slice());
    let hl = hashlines_chars(&new_lines);
    let ghost hls = seqs_of(hl@);
    proof {
        // every edited line is free of line feeds, so the new text loses at most one line
        let m = seqs_of(modified@);
        lemma_lines_no_newline(original_content@);
        assert forall|x: int| 0 <= x < m.len() implies !has_char(#[trigger] m[x], '\n') by {
            crate::edit_prepare::lemma_applied_no_newline(ls, es, perm@, x);
        }
        lemma_lines_of_join_len(m, ends_nl && !joined_nl);
        assert(hls.len() == seqs_of(new_lines@).len());
    }
    let mut sections: Vec<String> = Vec::new();
    let mut k: usize = 0;
    let mlen = modified.len();
    while k < perm.len()
        invariant
            nl@ == seq!['\n'],
            mlen == modified@.len(),
            es == edits@,
            ord == in_order(es, perm@),
            arranged(es, perm@),
            k <= perm.len(),
            starts@.len() == es.len(),
            forall|j: int| 0 <= j < starts@.len() ==> #[trigger] starts@[j] == new_start(ord, j),
            forall|j: int| 0 <= j < starts@.len() ==> #[trigger] starts@[j] + replacement_count(ord[j]) <= modified@.len(),
            hls == seqs_of(hl@),
            hls.len() + 1 >= modified@.len(),
            string_views(sections@) == hash_sections(ord.take(k as int), hls),
        decreases perm.len() - k,
    {
        proof {
            lemma_hash_sections_prefix(ord, k + 1, hls);
        }
        let e = &edits[perm[k]];
        assert(*e == ord[k as int]);
        let count = e.replacement_line_count();
        assert(count == replacement_count(ord[k as int]));
        if count == 0 {
            assert(string_views(sections@) == hash_sections(ord.take(k + 1), hls));
        }
        if count > 0 {
            let s = starts[k];
            assert(s + count <= modified@.len());
            let end = if s + count <= hl.len() { s + count } else { hl.len() };
            assert(s <= hl.len());
            let mut section: Vec<Vec<char>> = Vec::new();
            let mut t = s;
            while t < end
                invariant
                    s <= t <= end <= hl.len(),
                    seqs_of(section@) == hls.subrange(s as int, t as int),
                    hls == seqs_of(hl@),
                decreases end - t,
            {
                let ghost b = seqs_of(section@);
                section.push(copy_chars(hl[t].as_slice()));
                assert(seqs_of(section@) =~= b.push(hls[t as int]));
                assert(hls.subrange(s as int, t + 1) =~= hls.subrange(s as int, t as int).push(
                    hls[t as int],
                ));
                t += 1;
            }
            assert(seqs_of(section@) == section_at(ord, k as int, hls));
            assert(seqs_of(section@).len() == section@.len());
            if section.len() > 0 {
                let joined_section = join_chars(&section, &nl);
                let ghost before = string_views(sections@);
                sections.push(string_from_chars(joined_section.as_slice()));
                assert(string_views(sections@) =~= before.push(joined_section@));
            }
            assert(string_views(sections@) == hash_sections(ord.take(k + 1), hls));
        }
        k += 1;
    }
    assert(ord.take(perm.len() as int) =~= ord);
    let new_content = string_from_chars(new_chars.as_slice());
    let original_line_count = lines.len();
    let p = PreparedFileEdit {
        path: string_from_chars(chars_of(path).as_slice()),
        edits,
        original_content: string_from_chars(content_chars.as_slice()),
        new_content,
        original_line_count,
        new_hash_sections: sections,
    };
    proof {
        assert forall|q: Seq<usize>| #[trigger] arranged(es, q) implies {
            &&& p.new_content@ == new_content_of(original_content@, applied(ls, es, q))
            &&& string_views(p.new_hash_sections@) == hash_sections(
                in_order(es, q),
                hashlines_of(lines_of(p.new_content@)),
            )
        } by {
            lemma_arranged_unique(es, perm@, q);
        }
    }
    Ok(p)
}

/// Lines written by an edit are free of line feeds.
proof fn lemma_replacement_no_newline(e: LineEdit, x: int)
    requires
        0 <= x < crate::edit::replacement(e).len(),
    ensures
        !has_char(crate::edit::replacement(e)[x], '\n'),
{
    lemma_lines_no_newline(e.new_value@);
}

proof fn lemma_splice_no_newline(ls: Seq<Seq<char>>, es: Seq<LineEdit>, pos: int, x: int)
    requires
        forall|y: int| 0 <= y < ls.len() ==> !has_char(#[trigger] ls[y], '\n'),
        0 <= x < crate::edit::splice_from(ls, es, pos).len(),
        0 <= pos <= ls.len(),
        forall|j: int| 0 <= j < es.len() ==> {
            let e = #[trigger] es[j];
            0 <= crate::edit::region_start(e) <= crate::edit::region_end(e) <= ls.len()
        },
        es.len() > 0 ==> pos <= crate::edit::region_start(es[0]),
        forall|j: int| 0 <= j < es.len() - 1 ==> crate::edit::region_end(#[trigger] es[j])
            <= crate::edit::region_start(es[j + 1]),
    ensures
        !has_char(crate::edit::splice_from(ls, es, pos)[x], '\n'),
    decreases es.len(),
{
    if es.len() == 0 {
        assert(crate::edit::splice_from(ls, es, pos)[x] == ls[pos + x]);
    } else {
        let e = es[0];
        let a = ls.subrange(pos, crate::edit::region_start(e));
        let b = crate::edit::replacement(e);
        let rest = es.drop_first();
        if x < a.len() {
            assert(crate::edit::splice_from(ls, es, pos)[x] == ls[pos + x]);
        } else if x < a.len() + b.len() {
            assert(crate::edit::splice_from(ls, es, pos)[x] == b[x - a.len()]);
            lemma_replacement_no_newline(e, x - a.len());
        } else {
            assert forall|j: int| 0 <= j < rest.len() - 1 implies crate::edit::region_end(
                #[trigger] rest[j],
            ) <= crate::edit::region_start(rest[j + 1]) by {
                assert(rest[j] == es[j + 1] && rest[j + 1] == es[j + 2]);
            }
            if rest.len() > 0 {
                assert(rest[0] == es[1]);
            }
            lemma_splice_no_newline(ls, rest, crate::edit::region_end(e), x - a.len() - b.len());
            assert(crate::edit::splice_from(ls, es, pos)[x] == crate::edit::splice_from(
                ls,
                rest,
                crate::edit::region_end(e),
            )[x - a.len() - b.len()]);
        }
    }
}

/// Edited lines are free of line feeds.
pub proof fn lemma_applied_no_newline(ls: Seq<Seq<char>>, es: Seq<LineEdit>, perm: Seq<usize>, x: int)
    requires
        forall|y: int| 0 <= y < ls.len() ==> !has_char(#[trigger] ls[y], '\n'),
        arranged(es, perm),
        applicable(es, ls.len()),
        0 <= x < applied(ls, es, perm).len(),
    ensures
        !has_char(applied(ls, es, perm)[x], '\n'),
{
    crate::edit::lemma_regions_ordered(es, perm, ls.len());
    let ord = in_order(es, perm);
    if ord.len() > 0 {
        assert(0 <= crate::edit::region_start(ord[0]));
    }
    lemma_splice_no_newline(ls, ord, 0, x);
}

} // verus!
