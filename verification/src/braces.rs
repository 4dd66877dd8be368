//! Brace expansion of file patterns: `*.{py,yaml}` stands for `*.py` and
//! `*.yaml`; groups nest and combine; a group without a top-level comma
//! is kept as literal text.
use vstd::prelude::*;
use crate::text::{chars_eq, chars_of, push_chars, seqs_of, slice_chars, string_from_chars};
use crate::edit::string_views;

verus! {

pub const MAX_BRACE_GLOB_EXPANSIONS: usize = 64usize;

/// The scan of a brace group from index `i`, at nesting `depth`, with the
/// current alternative starting at `alt_start` and the alternatives `alts`
/// found so far: the closing index and the alternatives when the group
/// has a top-level comma, `None` when it has none, an error when it is
/// never closed.
pub open spec fn brace_scan(p: Seq<char>, i: int, depth: nat, alt_start: int, alts: Seq<Seq<char>>, saw: bool) -> Result<Option<(int, Seq<Seq<char>>)>, ()>
    decreases p.len() - i,
{
    if i < 0 || i >= p.len() {
        Err(())
    } else if p[i] == '{' {
        brace_scan(p, i + 1, depth + 1, alt_start, alts, saw)
    } else if p[i] == '}' {
        let d: nat = if depth >= 1 { (depth - 1) as nat } else { 0 };
        if d == 0 {
            if !saw {
                Ok(None)
            } else {
                Ok(Some((i, alts.push(p.subrange(alt_start, i)))))
            }
        } else {
            brace_scan(p, i + 1, d, alt_start, alts, saw)
        }
    } else if p[i] == ',' && depth == 1 {
        brace_scan(p, i + 1, depth, i + 1, alts.push(p.subrange(alt_start, i)), true)
    } else {
        brace_scan(p, i + 1, depth, alt_start, alts, saw)
    }
}

/// The group opened at `open`.
pub open spec fn brace_group(p: Seq<char>, open: int) -> Result<Option<(int, Seq<Seq<char>>)>, ()> {
    brace_scan(p, open, 0, open + 1, Seq::empty(), false)
}

pub proof fn lemma_scan_bounds(p: Seq<char>, i: int, depth: nat, alt_start: int, alts: Seq<Seq<char>>, saw: bool, open: int)
    requires
        0 <= open,
        open + 1 <= alt_start <= i + 1,
        saw ==> alt_start <= i,
        depth >= 1 ==> alt_start <= i,
        i >= open,
        forall|k: int| 0 <= k < alts.len() ==> (#[trigger] alts[k]).len() + open + 1 <= i,
    ensures
        brace_scan(p, i, depth, alt_start, alts, saw) matches Ok(Some((e, r))) ==> {
            &&& i <= e < p.len()
            &&& forall|k: int| 0 <= k < r.len() ==> (#[trigger] r[k]).len() + open + 1 <= e
        },
    decreases p.len() - i,
{
    if i < 0 || i >= p.len() {
    } else if p[i] == '{' {
        lemma_scan_bounds(p, i + 1, depth + 1, alt_start, alts, saw, open);
    } else if p[i] == '}' {
        let d: nat = if depth >= 1 { (depth - 1) as nat } else { 0 };
        if d != 0 {
            lemma_scan_bounds(p, i + 1, d, alt_start, alts, saw, open);
        } else if saw {
            let r = alts.push(p.subrange(alt_start, i));
            assert forall|k: int| 0 <= k < r.len() implies (#[trigger] r[k]).len() + open + 1 <= i by {
                if k < alts.len() {
                    assert(r[k] == alts[k]);
                }
            }
        }
    } else if p[i] == ',' && depth == 1 {
        let r = alts.push(p.subrange(alt_start, i));
        {
            assert forall|k: int| 0 <= k < r.len() implies (#[trigger] r[k]).len() + open + 1 <= i + 1 by {
                if k < alts.len() {
                    assert(r[k] == alts[k]);
                }
            }
            lemma_scan_bounds(p, i + 1, depth, i + 1, r, true, open);
        }
    } else {
        lemma_scan_bounds(p, i + 1, depth, alt_start, alts, saw, open);
    }
}

pub open spec fn group_view(r: Result<Option<(usize, Vec<Vec<char>>)>, String>) -> Result<Option<(int, Seq<Seq<char>>)>, ()> {
    match r {
        Ok(Some((e, v))) => Ok(Some((e as int, seqs_of(v@)))),
        Ok(None) => Ok(None),
        Err(_) => Err(()),
    }
}

pub const UNMATCHED_BRACE_ERROR: &'static str = "Invalid filePattern: unmatched `{` in brace glob";

/// Parse the brace group opened at `open_index` (see `brace_group`).
pub fn parse_brace_group(pattern: &[char], open_index: usize) -> (r: Result<Option<(usize, Vec<Vec<char>>)>, String>)
    requires
        open_index < pattern@.len(),
        pattern@[open_index as int] == '{',
    ensures
        group_view(r) == brace_group(pattern@, open_index as int),
        r matches Err(m) ==> m@ == UNMATCHED_BRACE_ERROR@,
{
    let ghost p = pattern@;
    let len = pattern.len();
    let mut depth: usize = 0;
    let mut alt_start: usize = open_index + 1;
    let mut alts: Vec<Vec<char>> = Vec::new();
    let mut saw_comma = false;
    let mut i: usize = open_index;
    assert(seqs_of(alts@) =~= Seq::<Seq<char>>::empty());
    while i < len
        invariant
            len == p.len(),
            p == pattern@,
            p[open_index as int] == '{',
            open_index <= i <= len,
            alt_start <= i + 1,
            i > open_index ==> depth >= 1 && alt_start <= i,
            i == open_index ==> depth == 0 && !saw_comma,
            depth <= i - open_index,
            brace_group(p, open_index as int) == brace_scan(p, i as int, depth as nat, alt_start as int, seqs_of(alts@), saw_comma),
        decreases len - i,
    {
        let c = pattern[i];
        if c == '{' {
            depth = depth + 1;
        } else if c == '}' {
            depth = if depth >= 1 { depth - 1 } else { 0 };
            if depth == 0 {
                let alt = slice_chars(pattern, alt_start, i);
                let ghost before = seqs_of(alts@);
                alts.push(alt);
                assert(seqs_of(alts@) =~= before.push(p.subrange(alt_start as int, i as int)));
                if !saw_comma {
                    return Ok(None);
                }
                return Ok(Some((i, alts)));
            }
        } else if c == ',' && depth == 1 {
            saw_comma = true;
            let alt = slice_chars(pattern, alt_start, i);
            let ghost before = seqs_of(alts@);
            alts.push(alt);
            assert(seqs_of(alts@) =~= before.push(p.subrange(alt_start as int, i as int)));
            alt_start = i + 1;
        }
        i += 1;
    }
    Err(UNMATCHED_BRACE_ERROR.to_string())
}

/// The first expandable group at or after index `i`: its opening and
/// closing index and alternatives.
pub open spec fn find_group(p: Seq<char>, i: int) -> Result<Option<(int, int, Seq<Seq<char>>)>, ()>
    decreases p.len() - i,
{
    if i < 0 || i >= p.len() {
        Ok(None)
    } else if p[i] == '{' {
        match brace_group(p, i) {
            Err(()) => Err(()),
            Ok(Some((e, alts))) => Ok(Some((i, e, alts))),
            Ok(None) => find_group(p, i + 1),
        }
    } else {
        find_group(p, i + 1)
    }
}

/// The patterns one expansion step gives: the first expandable group
/// replaced by each of its alternatives in turn.
pub open spec fn next_expansion(p: Seq<char>) -> Result<Option<Seq<Seq<char>>>, ()> {
    match find_group(p, 0) {
        Err(()) => Err(()),
        Ok(None) => Ok(None),
        Ok(Some((s, e, alts))) => Ok(Some(Seq::new(alts.len(), |k: int| p.take(s) + alts[k] + p.skip(e + 1)))),
    }
}

pub proof fn lemma_find_group_bounds(p: Seq<char>, i: int)
    requires
        0 <= i,
    ensures
        find_group(p, i) matches Ok(Some((s, e, alts))) ==> {
            &&& i <= s < e < p.len()
            &&& forall|k: int| 0 <= k < alts.len() ==> (#[trigger] alts[k]).len() + s + 1 <= e
        },
    decreases p.len() - i,
{
    if i < 0 || i >= p.len() {
    } else if p[i] == '{' {
        lemma_scan_bounds(p, i, 0, i + 1, Seq::empty(), false, i);
        match brace_group(p, i) {
            Ok(Some((e, alts))) => {
                assert(p[i] == '{');
                if e == i {
                    // the scan cannot close the group at its own opening brace
                    assert(brace_scan(p, i, 0, i + 1, Seq::empty(), false) == brace_scan(p, i + 1, 1, i + 1, Seq::<Seq<char>>::empty(), false));
                    lemma_scan_bounds(p, i + 1, 1, i + 1, Seq::empty(), false, i);
                }
            },
            _ => {
                lemma_find_group_bounds(p, i + 1);
            },
        }
    } else {
        lemma_find_group_bounds(p, i + 1);
    }
}

/// Each pattern one expansion step gives is at least two characters
/// shorter than the pattern expanded.
pub proof fn lemma_next_expansion_shorter(p: Seq<char>)
    ensures
        next_expansion(p) matches Ok(Some(parts)) ==> forall|k: int| 0 <= k < parts.len() ==> (#[trigger] parts[k]).len() + 2 <= p.len(),
{
    lemma_find_group_bounds(p, 0);
}

/// Find the first expandable brace group (see `find_group`).
fn find_expandable_brace_group(pattern: &[char]) -> (r: Result<Option<(usize, usize, Vec<Vec<char>>)>, String>)
    ensures
        match r {
            Ok(Some((s, e, v))) => find_group(pattern@, 0) == Ok::<Option<(int, int, Seq<Seq<char>>)>, ()>(Some((s as int, e as int, seqs_of(v@)))),
            Ok(None) => find_group(pattern@, 0) == Ok::<Option<(int, int, Seq<Seq<char>>)>, ()>(None),
            Err(m) => find_group(pattern@, 0) == Err::<Option<(int, int, Seq<Seq<char>>)>, ()>(()) && m@ == UNMATCHED_BRACE_ERROR@,
        },
{
    let mut index: usize = 0;
    while index < pattern.len()
        invariant
            index <= pattern@.len(),
            find_group(pattern@, 0) == find_group(pattern@, index as int),
        decreases pattern@.len() - index,
    {
        if pattern[index] == '{' {
            match parse_brace_group(pattern, index) {
                Err(m) => {
                    return Err(m);
                },
                Ok(Some((end, alternatives))) => {
                    return Ok(Some((index, end, alternatives)));
                },
                Ok(None) => {},
            }
        }
        index += 1;
    }
    Ok(None)
}

/// One expansion step (see `next_expansion`).
fn next_brace_expansion(pattern: &[char]) -> (r: Result<Option<Vec<Vec<char>>>, String>)
    ensures
        match r {
            Ok(Some(v)) => next_expansion(pattern@) == Ok::<Option<Seq<Seq<char>>>, ()>(Some(seqs_of(v@))),
            Ok(None) => next_expansion(pattern@) == Ok::<Option<Seq<Seq<char>>>, ()>(None),
            Err(m) => next_expansion(pattern@) == Err::<Option<Seq<Seq<char>>>, ()>(()) && m@ == UNMATCHED_BRACE_ERROR@,
        },
{
    let (start, end, alternatives) = match find_expandable_brace_group(pattern) {
        Err(m) => {
            return Err(m);
        },
        Ok(None) => {
            return Ok(None);
        },
        Ok(Some(g)) => g,
    };
    proof {
        lemma_find_group_bounds(pattern@, 0);
    }
    let ghost alts = seqs_of(alternatives@);
    let ghost want = Seq::new(alts.len(), |k: int| pattern@.take(start as int) + alts[k] + pattern@.skip(end + 1));
    let mut out: Vec<Vec<char>> = Vec::new();
    let mut k: usize = 0;
    while k < alternatives.len()
        invariant
            k <= alternatives@.len(),
            start < end < pattern@.len(),
            alts == seqs_of(alternatives@),
            want == Seq::new(alts.len(), |k: int| pattern@.take(start as int) + alts[k] + pattern@.skip(end + 1)),
            seqs_of(out@) == want.take(k as int),
        decreases alternatives@.len() - k,
    {
        let mut item = slice_chars(pattern, 0, start);
        push_chars(&mut item, alternatives[k].as_slice());
        let plen = pattern.len();
        let suffix = slice_chars(pattern, end + 1, plen);
        push_chars(&mut item, suffix.as_slice());
        assert(item@ =~= want[k as int]);
        let ghost before = seqs_of(out@);
        out.push(item);
        assert(seqs_of(out@) =~= before.push(want[k as int]));
        assert(seqs_of(out@) =~= want.take(k + 1));
        k += 1;
    }
    assert(want.take(alternatives@.len() as int) =~= want);
    Ok(Some(out))
}

/// `64^e`.
pub open spec fn p64(e: nat) -> nat
    decreases e,
{
    if e == 0 { 1 } else { 64 * p64((e - 1) as nat) }
}

/// Each pending pattern weighs `64^len`; an expansion step replaces a
/// pattern by at most 64 patterns two characters shorter, so the weight
/// of the worklist drops.
pub open spec fn weight(s: Seq<Seq<char>>) -> nat
    decreases s.len(),
{
    if s.len() == 0 { 0 } else { weight(s.drop_last()) + p64(s.last().len()) }
}

pub proof fn lemma_p64_mono(a: nat, b: nat)
    requires
        a <= b,
    ensures
        1 <= p64(a) <= p64(b),
    decreases b,
{
    if b > a {
        lemma_p64_mono(a, (b - 1) as nat);
    } else if b > 0 {
        lemma_p64_mono(0, (b - 1) as nat);
    }
}

pub proof fn lemma_weight_append(a: Seq<Seq<char>>, b: Seq<Seq<char>>)
    ensures
        weight(a + b) == weight(a) + weight(b),
    decreases b.len(),
{
    if b.len() > 0 {
        lemma_weight_append(a, b.drop_last());
        assert((a + b).drop_last() =~= a + b.drop_last());
    } else {
        assert(a + b =~= a);
    }
}

pub proof fn lemma_weight_bound(s: Seq<Seq<char>>, l: nat)
    requires
        forall|k: int| 0 <= k < s.len() ==> (#[trigger] s[k]).len() <= l,
    ensures
        weight(s) <= s.len() * p64(l),
    decreases s.len(),
{
    if s.len() > 0 {
        lemma_weight_bound(s.drop_last(), l);
        lemma_p64_mono(s.last().len(), l);
        assert(weight(s) <= (s.len() - 1) * p64(l) + p64(l));
        assert((s.len() - 1) * p64(l) + p64(l) == s.len() * p64(l)) by (nonlinear_arith);
    }
}

/// Replacing the last pending pattern by at most 64 patterns two
/// characters shorter lowers the weight.
pub proof fn lemma_weight_drops(pending: Seq<Seq<char>>, parts: Seq<Seq<char>>)
    requires
        pending.len() > 0,
        parts.len() <= 64,
        forall|k: int| 0 <= k < parts.len() ==> (#[trigger] parts[k]).len() + 2 <= pending.last().len(),
    ensures
        weight(pending.drop_last() + parts) < weight(pending),
{
    let l = pending.last().len();
    lemma_weight_append(pending.drop_last(), parts);
    assert(l >= 2 || parts.len() == 0);
    if parts.len() > 0 {
        let m = (l - 2) as nat;
        lemma_weight_bound(parts, m);
        assert(parts.len() * p64(m) <= 64 * p64(m)) by (nonlinear_arith)
            requires
                parts.len() <= 64,
        ;
        assert(p64(l) == 64 * p64((l - 1) as nat));
        assert(p64((l - 1) as nat) == 64 * p64(m));
        lemma_p64_mono(0, m);
    } else {
        lemma_p64_mono(0, l);
    }
}

pub const TOO_MANY_EXPANSIONS_ERROR: &'static str = "filePattern expands to more than 64 globs";

/// The brace-expansion worklist: the last pending pattern is taken; a
/// pattern with no expandable group is kept (once); otherwise it is
/// replaced by its expansions, as long as the patterns kept, pending and
/// new stay within 64.
pub open spec fn expand_run(pending: Seq<Seq<char>>, expanded: Seq<Seq<char>>) -> Result<Seq<Seq<char>>, Seq<char>>
    decreases weight(pending),
{
    if pending.len() == 0 {
        Ok(expanded)
    } else {
        let cur = pending.last();
        let rest = pending.drop_last();
        match next_expansion(cur) {
            Err(()) => Err(UNMATCHED_BRACE_ERROR@),
            Ok(None) => {
                proof {
                    assert(weight(pending) == weight(rest) + p64(cur.len()));
                    lemma_p64_mono(0, cur.len());
                }
                expand_run(rest, if expanded.contains(cur) { expanded } else { expanded.push(cur) })
            },
            Ok(Some(parts)) => if expanded.len() + rest.len() + parts.len() > 64 {
                Err(TOO_MANY_EXPANSIONS_ERROR@)
            } else {
                proof {
                    lemma_next_expansion_shorter(cur);
                    lemma_weight_drops(pending, parts);
                }
                expand_run(rest + parts, expanded)
            },
        }
    }
}

/// The globs a pattern stands for (see `expand_run`); the pattern itself
/// when nothing was kept.
pub open spec fn brace_expansion(p: Seq<char>) -> Result<Seq<Seq<char>>, Seq<char>> {
    match expand_run(seq![p], Seq::empty()) {
        Ok(e) => Ok(if e.len() == 0 { seq![p] } else { e }),
        Err(m) => Err(m),
    }
}

fn contains_pattern(v: &Vec<Vec<char>>, x: &[char]) -> (r: bool)
    ensures
        r == seqs_of(v@).contains(x@),
{
    let mut i: usize = 0;
    while i < v.len()
        invariant
            i <= v@.len(),
            forall|k: int| 0 <= k < i ==> seqs_of(v@)[k] != x@,
        decreases v@.len() - i,
    {
        if chars_eq(v[i].as_slice(), x) {
            assert(seqs_of(v@)[i as int] == x@);
            return true;
        }
        i += 1;
    }
    false
}

/// Expand the brace groups of a file pattern (see `brace_expansion`).
pub fn expand_brace_globs(pattern: &str) -> (r: Result<Vec<String>, String>)
    ensures
        match r {
            Ok(v) => brace_expansion(pattern@) == Ok::<Seq<Seq<char>>, Seq<char>>(string_views(v@)),
            Err(m) => brace_expansion(pattern@) == Err::<Seq<Seq<char>>, Seq<char>>(m@),
        },
{
    let p = chars_of(pattern);
    let mut pending: Vec<Vec<char>> = Vec::new();
    pending.push(crate::text::copy_chars(p.as_slice()));
    let mut expanded: Vec<Vec<char>> = Vec::new();
    assert(seqs_of(pending@) =~= seq![pattern@]);
    assert(seqs_of(expanded@) =~= Seq::<Seq<char>>::empty());
    while pending.len() > 0
        invariant
            expand_run(seq![pattern@], Seq::empty()) == expand_run(seqs_of(pending@), seqs_of(expanded@)),
            expanded@.len() + pending@.len() <= 64,
        decreases weight(seqs_of(pending@)),
    {
        let ghost pv = seqs_of(pending@);
        let current = pending.pop().unwrap();
        assert(seqs_of(pending@) =~= pv.drop_last());
        assert(current@ == pv.last());
        proof {
            assert(weight(pv) == weight(pv.drop_last()) + p64(pv.last().len()));
            lemma_p64_mono(0, pv.last().len());
        }
        match next_brace_expansion(current.as_slice()) {
            Err(m) => {
                return Err(m);
            },
            Ok(None) => {
                if !contains_pattern(&expanded, current.as_slice()) {
                    let ghost before = seqs_of(expanded@);
                    expanded.push(current);
                    assert(seqs_of(expanded@) =~= before.push(pv.last()));
                }
            },
            Ok(Some(parts)) => {
                let used = expanded.len() + pending.len();
                if parts.len() > MAX_BRACE_GLOB_EXPANSIONS - used {
                    return Err(TOO_MANY_EXPANSIONS_ERROR.to_string());
                }
                proof {
                    lemma_next_expansion_shorter(pv.last());
                    lemma_weight_drops(pv, seqs_of(parts@));
                }
                let ghost before = seqs_of(pending@);
                let mut j: usize = 0;
                while j < parts.len()
                    invariant
                        j <= parts@.len(),
                        expanded@.len() + before.len() + parts@.len() <= 64,
                        pending@.len() == before.len() + j,
                        seqs_of(pending@) == before + seqs_of(parts@).take(j as int),
                    decreases parts@.len() - j,
                {
                    let ghost b2 = seqs_of(pending@);
                    pending.push(crate::text::copy_chars(parts[j].as_slice()));
                    assert(seqs_of(pending@) =~= b2.push(seqs_of(parts@)[j as int]));
                    assert(seqs_of(pending@) =~= before + seqs_of(parts@).take(j + 1));
                    j += 1;
                }
                assert(seqs_of(parts@).take(parts@.len() as int) =~= seqs_of(parts@));
            },
        }
    }
    let mut out: Vec<String> = Vec::new();
    if expanded.len() == 0 {
        out.push(string_from_chars(p.as_slice()));
        assert(string_views(out@) =~= seq![pattern@]);
        return Ok(out);
    }
    let mut i: usize = 0;
    while i < expanded.len()
        invariant
            i <= expanded@.len(),
            string_views(out@) == seqs_of(expanded@).take(i as int),
        decreases expanded@.len() - i,
    {
        let ghost before = string_views(out@);
        out.push(string_from_chars(expanded[i].as_slice()));
        assert(string_views(out@) =~= before.push(seqs_of(expanded@)[i as int]));
        assert(string_views(out@) =~= seqs_of(expanded@).take(i + 1));
        i += 1;
    }
    assert(seqs_of(expanded@).take(expanded@.len() as int) =~= seqs_of(expanded@));
    Ok(out)
}

} // verus!
