//! String replacement helpers: counting occurrences and the context shown
//! around a replaced block.
use vstd::prelude::*;
use crate::text::{
    chars_of, chars_eq, count_matches, dec, find_from, first_occ, join, join_chars, lines_of,
    pad_left, push_chars, push_dec_padded, push_dec, push_str, seqs_of, split_lines,
    string_from_chars,
};

verus! {

proof fn lemma_count_matches_step(s: Seq<char>, n: Seq<char>)
    requires
        n.len() > 0,
    ensures
        first_occ(s, n) < 0 ==> count_matches(s, n) == 0,
        first_occ(s, n) >= 0 ==> count_matches(s, n) == 1 + count_matches(s.skip(first_occ(s, n) + n.len()), n),
    decreases s.len(),
{
    if s.len() < n.len() {
    } else if s.take(n.len() as int) == n {
    } else {
        let t = s.skip(1);
        lemma_count_matches_step(t, n);
        crate::text::lemma_first_occ(t, n);
        if first_occ(t, n) >= 0 {
            assert(s.skip(first_occ(s, n) + n.len()) =~= t.skip(first_occ(t, n) + n.len()));
        }
    }
}

/// The number of non-overlapping occurrences of `needle`, counted from
/// the left; none for an empty needle.
pub fn count_occurrences(content: &str, needle: &str) -> (r: usize)
    ensures
        r == count_matches(content@, needle@),
{
    let h = chars_of(content);
    let n = chars_of(needle);
    if n.len() == 0 {
        return 0;
    }
    let mut count: usize = 0;
    let mut i: usize = 0;
    assert(h@.skip(0) =~= h@);
    while i <= h.len()
        invariant
            h@ == content@,
            n@ == needle@,
            n@.len() > 0,
            i <= h@.len() + 1,
            count <= i,
            i <= h@.len() ==> count + count_matches(h@.skip(i as int), n@) == count_matches(h@, n@),
            i > h@.len() ==> count == count_matches(h@, n@),
        decreases h@.len() + 1 - i,
    {
        proof {
            lemma_count_matches_step(h@.skip(i as int), n@);
        }
        match find_from(h.as_slice(), n.as_slice(), i) {
            None => {
                return count;
            },
            Some(k) => {
                proof {
                    crate::text::lemma_first_occ(h@.skip(i as int), n@);
                }
                assert(h@.skip(i as int).skip(k - i + n@.len()) =~= h@.skip(k + n@.len()));
                count = count + 1;
                i = k + n.len();
                if i > h.len() {
                    return count;
                }
            },
        }
    }
    count
}

/// The first window of `n` consecutive lines, from index `idx` on, whose
/// lines joined with line feeds equal `old`; -1 when there is none.
pub open spec fn first_window(lines: Seq<Seq<char>>, n: nat, old: Seq<char>, idx: int) -> int
    decreases lines.len() + 1 - idx,
{
    if idx < 0 || idx + n > lines.len() {
        -1
    } else if join(lines.subrange(idx, idx + n), seq!['\n']) == old {
        idx
    } else {
        first_window(lines, n, old, idx + 1)
    }
}

/// `{marker}{n:>4} | {line}`.
pub open spec fn context_line(marker: Seq<char>, n: nat, line: Seq<char>) -> Seq<char> {
    marker + pad_left(dec(n), 4) + " | "@ + line
}

/// The lines of the context shown for a replacement matched at line
/// index `idx` spanning `n` lines: a header, two lines of context each
/// side with the matched lines marked, then the new lines.
pub open spec fn context_lines(lines: Seq<Seq<char>>, idx: int, n: nat, new_lines: Seq<Seq<char>>) -> Seq<Seq<char>> {
    let cs = if idx >= 2 { idx - 2 } else { 0 };
    let ce = if idx + n + 2 <= lines.len() { idx + n + 2 } else { lines.len() as int };
    seq!["@@ Lines "@ + dec((idx + 1) as nat) + seq!['-'] + dec((idx + n) as nat) + " (showing context) @@"@]
        + Seq::new((ce - cs) as nat, |k: int| {
            let line_index = cs + k;
            let marker = if line_index < idx || line_index >= idx + n { "  "@ } else { "- "@ };
            context_line(marker, (line_index + 1) as nat, lines[line_index])
        })
        + Seq::new(new_lines.len(), |i: int| context_line("+ "@, (idx + i + 1) as nat, new_lines[i]))
}

/// The contextual diff preview of replacing `old` by `new` in `content`:
/// around the first run of whole lines that spells `old`.
pub open spec fn replacement_context(content: Seq<char>, old: Seq<char>, new: Seq<char>) -> Seq<char> {
    let lines = lines_of(content);
    let n = lines_of(old).len();
    let idx = first_window(lines, n, old, 0);
    if idx < 0 {
        "ERROR: Match location not found (should not happen)"@
    } else {
        join(context_lines(lines, idx, n, lines_of(new)), seq!['\n'])
    }
}

fn window_matches(lines: &Vec<Vec<char>>, idx: usize, n: usize, old: &[char]) -> (r: bool)
    requires
        idx + n <= lines@.len(),
    ensures
        r == (join(seqs_of(lines@).subrange(idx as int, idx + n), seq!['\n']) == old@),
{
    let len = lines.len();
    let mut w: Vec<Vec<char>> = Vec::new();
    let mut k: usize = 0;
    while k < n
        invariant
            k <= n,
            len == lines@.len(),
            idx + n <= lines@.len(),
            seqs_of(w@) == seqs_of(lines@).subrange(idx as int, idx + k),
        decreases n - k,
    {
        let ghost before = seqs_of(w@);
        w.push(crate::text::copy_chars(lines[idx + k].as_slice()));
        assert(seqs_of(w@) =~= before.push(seqs_of(lines@)[idx + k]));
        assert(seqs_of(w@) =~= seqs_of(lines@).subrange(idx as int, idx + k + 1));
        k += 1;
    }
    let nl = ['\n'];
    assert(nl@ =~= seq!['\n']);
    let j = join_chars(&w, &nl);
    chars_eq(j.as_slice(), old)
}

fn push_context_line(out: &mut Vec<Vec<char>>, marker: &str, n: usize, line: &[char])
    ensures
        seqs_of(final(out)@) == seqs_of(old(out)@).push(context_line(marker@, n as nat, line@)),
{
    let mut l: Vec<char> = Vec::new();
    push_str(&mut l, marker);
    push_dec_padded(&mut l, n as u64, 4);
    push_str(&mut l, " | ");
    push_chars(&mut l, line);
    assert(l@ =~= context_line(marker@, n as nat, line@));
    out.push(l);
    assert(seqs_of(out@) =~= seqs_of(old(out)@).push(context_line(marker@, n as nat, line@)));
}

/// The first window of `n` lines spelling `old`.
fn find_window(lines: &Vec<Vec<char>>, n: usize, old: &[char]) -> (r: Option<usize>)
    requires
        n > 0,
    ensures
        match r {
            Some(i) => first_window(seqs_of(lines@), n as nat, old@, 0) == i && i + n <= lines@.len(),
            None => first_window(seqs_of(lines@), n as nat, old@, 0) == -1,
        },
{
    let ghost ls = seqs_of(lines@);
    if n > lines.len() {
        return None;
    }
    let last = lines.len() - n;
    assert(last < lines.len());
    let mut idx: usize = 0;
    while idx <= last
        invariant
            ls == seqs_of(lines@),
            last < usize::MAX,
            last + n == lines@.len(),
            first_window(ls, n as nat, old@, 0) == first_window(ls, n as nat, old@, idx as int),
        decreases last + 1 - idx,
    {
        if window_matches(lines, idx, n, old) {
            return Some(idx);
        }
        idx += 1;
    }
    None
}

/// Generate contextual diff preview (shows surrounding lines).
pub fn generate_replacement_context(content: &str, old_string: &str, new_string: &str) -> (r: String)
    requires
        lines_of(old_string@).len() > 0,
        lines_of(content@).len() + lines_of(new_string@).len() < usize::MAX,
    ensures
        r@ == replacement_context(content@, old_string@, new_string@),
{
    let lines = split_lines(chars_of(content).as_slice());
    let old = chars_of(old_string);
    let search_lines = split_lines(old.as_slice());
    let new_lines = split_lines(chars_of(new_string).as_slice());
    let ghost ls = seqs_of(lines@);
    let n = search_lines.len();
    let idx = match find_window(&lines, n, old.as_slice()) {
        Some(i) => i,
        None => {
            return "ERROR: Match location not found (should not happen)".to_string();
        },
    };
    assert(first_window(ls, n as nat, old@, 0) == idx);
    let cs: usize = if idx >= 2 { idx - 2 } else { 0 };
    let ce: usize = if lines.len() - (idx + n) >= 2 { idx + n + 2 } else { lines.len() };
    let mut out: Vec<Vec<char>> = Vec::new();
    let mut h: Vec<char> = Vec::new();
    push_str(&mut h, "@@ Lines ");
    push_dec(&mut h, (idx + 1) as u64);
    h.push('-');
    push_dec(&mut h, (idx + n) as u64);
    push_str(&mut h, " (showing context) @@");
    assert(h@ =~= "@@ Lines "@ + dec((idx + 1) as nat) + seq!['-'] + dec((idx + n) as nat) + " (showing context) @@"@);
    out.push(h);
    let ghost head = seqs_of(out@);
    assert(head =~= seq!["@@ Lines "@ + dec((idx + 1) as nat) + seq!['-'] + dec((idx + n) as nat) + " (showing context) @@"@]);
    let ghost ctx = Seq::new((ce - cs) as nat, |k: int| {
        let line_index = cs + k;
        let marker = if line_index < idx || line_index >= idx + n { "  "@ } else { "- "@ };
        context_line(marker, (line_index + 1) as nat, ls[line_index])
    });
    let len = lines.len();
    let mut k: usize = cs;
    while k < ce
        invariant
            cs <= k <= ce <= lines@.len(),
            len == lines@.len(),
            idx + n <= lines@.len(),
            ls == seqs_of(lines@),
            ctx == Seq::new((ce - cs) as nat, |k: int| {
                let line_index = cs + k;
                let marker = if line_index < idx || line_index >= idx + n { "  "@ } else { "- "@ };
                context_line(marker, (line_index + 1) as nat, ls[line_index])
            }),
            seqs_of(out@) == head + ctx.take(k - cs),
        decreases ce - k,
    {
        let ghost before = seqs_of(out@);
        if k < idx || k >= idx + n {
            push_context_line(&mut out, "  ", k + 1, lines[k].as_slice());
        } else {
            push_context_line(&mut out, "- ", k + 1, lines[k].as_slice());
        }
        assert(seqs_of(out@) =~= head + ctx.take(k + 1 - cs));
        k += 1;
    }
    assert(ctx.take(ce - cs) =~= ctx);
    let ghost mid = seqs_of(out@);
    let ghost nls = seqs_of(new_lines@);
    let mut i: usize = 0;
    while i < new_lines.len()
        invariant
            i <= new_lines@.len(),
            idx + n <= lines@.len(),
            lines@.len() + nls.len() < usize::MAX,
            nls == seqs_of(new_lines@),
            seqs_of(out@) == mid + Seq::new(i as nat, |j: int| context_line("+ "@, (idx + j + 1) as nat, nls[j])),
        decreases new_lines@.len() - i,
    {
        push_context_line(&mut out, "+ ", idx + i + 1, new_lines[i].as_slice());
        assert(Seq::new((i + 1) as nat, |j: int| context_line("+ "@, (idx + j + 1) as nat, nls[j])) =~= Seq::new(i as nat, |j: int| context_line("+ "@, (idx + j + 1) as nat, nls[j])).push(context_line("+ "@, (idx + i + 1) as nat, nls[i as int])));
        i += 1;
    }
    assert(seqs_of(out@) =~= context_lines(ls, idx as int, n as nat, nls));
    let nl = ['\n'];
    assert(nl@ =~= seq!['\n']);
    let j = join_chars(&out, &nl);
    string_from_chars(j.as_slice())
}

} // verus!
