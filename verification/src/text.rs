//! Character-level text helpers: the line model shared by every tool
//! (the same splitting rule as `str::lines`), joining, decimal and hex
//! rendering, and small string builders.
use vstd::prelude::*;

verus! {

// ---------------------------------------------------------------------------
// Line model
// ---------------------------------------------------------------------------

/// The pieces of `s` between `'\n'` separators (always at least one piece).
pub open spec fn split_pieces(s: Seq<char>) -> Seq<Seq<char>>
    decreases s.len(),
{
    if s.len() == 0 {
        seq![Seq::<char>::empty()]
    } else {
        let p = split_pieces(s.drop_last());
        if s.last() == '\n' {
            p.push(Seq::<char>::empty())
        } else {
            p.update(p.len() - 1, p.last().push(s.last()))
        }
    }
}

/// A line that was terminated by `'\n'` loses one trailing `'\r'`.
pub open spec fn strip_cr(l: Seq<char>) -> Seq<char> {
    if l.len() > 0 && l.last() == '\r' {
        l.drop_last()
    } else {
        l
    }
}

/// The lines of `s`: split at `'\n'` (a `"\r\n"` pair counts as one line
/// ending), with no empty final line after a trailing line ending.
pub open spec fn lines_of(s: Seq<char>) -> Seq<Seq<char>> {
    let p = split_pieces(s);
    let body = p.drop_last().map_values(|l: Seq<char>| strip_cr(l));
    if p.last().len() == 0 {
        body
    } else {
        body.push(p.last())
    }
}

pub proof fn lemma_split_pieces_nonempty(s: Seq<char>)
    ensures
        split_pieces(s).len() >= 1,
    decreases s.len(),
{
    if s.len() > 0 {
        lemma_split_pieces_nonempty(s.drop_last());
    }
}

/// Text that is not empty has at least one line.
pub proof fn lemma_lines_nonempty(s: Seq<char>)
    requires
        s.len() > 0,
    ensures
        lines_of(s).len() > 0,
{
    lemma_split_pieces_nonempty(s);
    lemma_split_pieces_nonempty(s.drop_last());
    let q = split_pieces(s.drop_last());
    if s.last() == '\n' {
        assert(split_pieces(s).len() == q.len() + 1);
    } else {
        assert(split_pieces(s).last() == q.last().push(s.last()));
    }
}

/// No piece contains a line feed.
pub proof fn lemma_split_pieces_no_newline(s: Seq<char>)
    ensures
        forall|i: int, j: int|
            0 <= i < split_pieces(s).len() && 0 <= j < split_pieces(s)[i].len() ==> #[trigger] split_pieces(s)[i][j] != '\n',
    decreases s.len(),
{
    lemma_split_pieces_nonempty(s);
    if s.len() > 0 {
        lemma_split_pieces_no_newline(s.drop_last());
        lemma_split_pieces_nonempty(s.drop_last());
        let p = split_pieces(s.drop_last());
        if s.last() != '\n' {
            let q = p.update(p.len() - 1, p.last().push(s.last()));
            assert forall|i: int, j: int|
                0 <= i < q.len() && 0 <= j < q[i].len() implies #[trigger] q[i][j] != '\n' by {
                if i == p.len() - 1 {
                    if j < p.last().len() {
                        assert(q[i][j] == p[i][j]);
                    }
                } else {
                    assert(q[i] == p[i]);
                }
            }
        }
    }
}

/// Whether `c` occurs in `s`.
pub open spec fn has_char(s: Seq<char>, c: char) -> bool {
    exists|j: int| 0 <= j < s.len() && s[j] == c
}

/// No line contains a line feed.
pub proof fn lemma_lines_no_newline(s: Seq<char>)
    ensures
        forall|i: int| 0 <= i < lines_of(s).len() ==> !has_char(#[trigger] lines_of(s)[i], '\n'),
{
    lemma_split_pieces_no_newline(s);
    lemma_split_pieces_nonempty(s);
    let p = split_pieces(s);
    assert forall|i: int| 0 <= i < lines_of(s).len() implies !has_char(
        #[trigger] lines_of(s)[i],
        '\n',
    ) by {
        if has_char(lines_of(s)[i], '\n') {
            let j = choose|j: int| 0 <= j < lines_of(s)[i].len() && lines_of(s)[i][j] == '\n';
            if i < p.len() - 1 {
                assert(lines_of(s)[i] == strip_cr(p[i]));
                assert(lines_of(s)[i][j] == p[i][j]);
            } else {
                assert(lines_of(s)[i] == p.last());
                assert(p[p.len() - 1][j] == '\n');
            }
        }
    }
}

/// Splitting text made of a line-feed-free tail.
pub proof fn lemma_split_pieces_append(a: Seq<char>, b: Seq<char>)
    requires
        !has_char(b, '\n'),
    ensures
        split_pieces(a + seq!['\n'] + b) == split_pieces(a).push(b),
    decreases b.len(),
{
    if b.len() == 0 {
        assert(a + seq!['\n'] + b =~= a.push('\n'));
        assert((a.push('\n')).drop_last() =~= a);
        assert(b =~= Seq::<char>::empty());
    } else {
        let b0 = b.drop_last();
        assert(!has_char(b0, '\n')) by {
            if has_char(b0, '\n') {
                let j = choose|j: int| 0 <= j < b0.len() && b0[j] == '\n';
                assert(b[j] == '\n');
            }
        }
        lemma_split_pieces_append(a, b0);
        let x = a + seq!['\n'] + b;
        assert(x.drop_last() =~= a + seq!['\n'] + b0);
        assert(x.last() == b.last());
        assert(b.last() != '\n') by {
            assert(b[b.len() - 1] == b.last());
        }
        lemma_split_pieces_nonempty(a);
        assert(b0.push(b.last()) =~= b);
        let p = split_pieces(a).push(b0);
        assert(p.last() == b0);
        assert(p.update(p.len() - 1, p.last().push(x.last())) =~= split_pieces(a).push(b));
    }
}

/// Text without line feeds is a single piece.
pub proof fn lemma_split_pieces_single(b: Seq<char>)
    requires
        !has_char(b, '\n'),
    ensures
        split_pieces(b) == seq![b],
    decreases b.len(),
{
    if b.len() > 0 {
        let b0 = b.drop_last();
        assert(!has_char(b0, '\n')) by {
            if has_char(b0, '\n') {
                let j = choose|j: int| 0 <= j < b0.len() && b0[j] == '\n';
                assert(b[j] == '\n');
            }
        }
        lemma_split_pieces_single(b0);
        assert(b.last() != '\n') by {
            assert(b[b.len() - 1] == b.last());
        }
        assert(b0.push(b.last()) =~= b);
        assert(b.drop_last() == b0);
        let p = seq![b0];
        assert(p.last() == b0);
        assert(p.update(0, b0.push(b.last())) =~= seq![b]);
    } else {
        assert(b =~= Seq::<char>::empty());
    }
}

/// Joining line-feed-free parts with line feeds and splitting again gives
/// the parts back.
pub proof fn lemma_split_pieces_join(m: Seq<Seq<char>>)
    requires
        m.len() >= 1,
        forall|i: int| 0 <= i < m.len() ==> !has_char(#[trigger] m[i], '\n'),
    ensures
        split_pieces(join(m, seq!['\n'])) == m,
    decreases m.len(),
{
    if m.len() == 1 {
        lemma_split_pieces_single(m[0]);
        assert(m =~= seq![m[0]]);
    } else {
        let m0 = m.drop_last();
        lemma_split_pieces_join(m0);
        assert(!has_char(m.last(), '\n')) by {
            assert(m[m.len() - 1] == m.last());
        }
        lemma_split_pieces_append(join(m0, seq!['\n']), m.last());
        assert(m0.push(m.last()) =~= m);
    }
}

/// Joining line-feed-free parts with line feeds (optionally followed by one
/// more line feed) and taking the lines again loses at most one part.
pub proof fn lemma_lines_of_join_len(m: Seq<Seq<char>>, trailing: bool)
    requires
        forall|i: int| 0 <= i < m.len() ==> !has_char(#[trigger] m[i], '\n'),
    ensures
        lines_of(if trailing { join(m, seq!['\n']).push('\n') } else { join(m, seq!['\n']) }).len()
            + 1 >= m.len(),
{
    if m.len() >= 1 {
        lemma_split_pieces_join(m);
        let j = join(m, seq!['\n']);
        if trailing {
            assert(j.push('\n').drop_last() =~= j);
        }
    }
}

/// The views of a sequence of character vectors.
pub open spec fn seqs_of(v: Seq<Vec<char>>) -> Seq<Seq<char>> {
    Seq::new(v.len(), |i: int| v[i]@)
}

/// Parts joined with `sep` between consecutive parts.
pub open spec fn join(parts: Seq<Seq<char>>, sep: Seq<char>) -> Seq<char>
    decreases parts.len(),
{
    if parts.len() == 0 {
        Seq::<char>::empty()
    } else if parts.len() == 1 {
        parts[0]
    } else {
        join(parts.drop_last(), sep) + sep + parts.last()
    }
}

// ---------------------------------------------------------------------------
// Small builders
// ---------------------------------------------------------------------------

/// Appends one character to a string.
#[verifier::external_body]
pub(crate) fn push_char(s: &mut String, c: char)
    ensures
        final(s)@ == old(s)@.push(c),
{
    s.push(c);
}

/// The characters of `s`, in order.
pub fn chars_of(s: &str) -> (out: Vec<char>)
    ensures
        out@ == s@,
{
    let mut out: Vec<char> = Vec::new();
    for c in it: s.chars()
        invariant
            out@ == it.seq().take(it.index() as int),
    {
        out.push(c);
    }
    out
}

/// A string holding exactly the given characters.
pub fn string_from_chars(cs: &[char]) -> (s: String)
    ensures
        s@ == cs@,
{
    let mut s = String::new();
    let mut i: usize = 0;
    while i < cs.len()
        invariant
            i <= cs.len(),
            s@ == cs@.take(i as int),
        decreases cs.len() - i,
    {
        push_char(&mut s, cs[i]);
        assert(cs@.take(i + 1) == cs@.take(i as int).push(cs@[i as int]));
        i += 1;
    }
    assert(cs@.take(cs.len() as int) == cs@);
    s
}

/// Appends the characters of `s` to `out`.
pub fn push_str(out: &mut Vec<char>, s: &str)
    ensures
        final(out)@ == old(out)@ + s@,
{
    let ghost start = out@;
    for c in it: s.chars()
        invariant
            out@ == start + it.seq().take(it.index() as int),
    {
        out.push(c);
        assert(start + it.seq().take(it.index() + 1) == (start + it.seq().take(
            it.index() as int,
        )).push(c));
    }
}

/// Appends the characters of `s` to `out`.
pub fn push_chars(out: &mut Vec<char>, s: &[char])
    ensures
        final(out)@ == old(out)@ + s@,
{
    let ghost start = out@;
    let mut i: usize = 0;
    while i < s.len()
        invariant
            i <= s.len(),
            out@ == start + s@.take(i as int),
        decreases s.len() - i,
    {
        out.push(s[i]);
        assert(start + s@.take(i + 1) == (start + s@.take(i as int)).push(s@[i as int]));
        i += 1;
    }
    assert(s@.take(s.len() as int) == s@);
}

/// A copy of a character vector.
pub fn copy_chars(s: &[char]) -> (out: Vec<char>)
    ensures
        out@ == s@,
{
    let mut out: Vec<char> = Vec::new();
    push_chars(&mut out, s);
    out
}

/// The characters `s[from..to]`.
pub fn slice_chars(s: &[char], from: usize, to: usize) -> (out: Vec<char>)
    requires
        from <= to <= s.len(),
    ensures
        out@ == s@.subrange(from as int, to as int),
{
    let mut out: Vec<char> = Vec::new();
    let mut i = from;
    while i < to
        invariant
            from <= i <= to <= s.len(),
            out@ == s@.subrange(from as int, i as int),
        decreases to - i,
    {
        out.push(s[i]);
        assert(s@.subrange(from as int, i + 1) == s@.subrange(from as int, i as int).push(
            s@[i as int],
        ));
        i += 1;
    }
    out
}

/// Whether two character vectors hold the same characters.
pub fn chars_eq(a: &[char], b: &[char]) -> (r: bool)
    ensures
        r == (a@ == b@),
{
    if a.len() != b.len() {
        return false;
    }
    let mut i: usize = 0;
    while i < a.len()
        invariant
            i <= a.len() == b.len(),
            forall|j: int| 0 <= j < i ==> a@[j] == b@[j],
        decreases a.len() - i,
    {
        if a[i] != b[i] {
            return false;
        }
        i += 1;
    }
    assert(a@ =~= b@);
    true
}

// ---------------------------------------------------------------------------
// Lines and joins
// ---------------------------------------------------------------------------

proof fn lemma_lines_step(s: Seq<char>, i: int)
    requires
        0 <= i < s.len(),
    ensures
        split_pieces(s.take(i + 1)) == (if s[i] == '\n' {
            split_pieces(s.take(i)).push(Seq::<char>::empty())
        } else {
            let p = split_pieces(s.take(i));
            p.update(p.len() - 1, p.last().push(s[i]))
        }),
{
    assert(s.take(i + 1).drop_last() == s.take(i));
}

/// Splits `s` into lines exactly as `lines_of` describes.
pub fn split_lines(s: &[char]) -> (out: Vec<Vec<char>>)
    ensures
        seqs_of(out@) == lines_of(s@),
{
    let mut done: Vec<Vec<char>> = Vec::new();
    let mut cur: Vec<char> = Vec::new();
    let mut i: usize = 0;
    proof {
        assert(s@.take(0) == Seq::<char>::empty());
    }
    while i < s.len()
        invariant
            i <= s.len(),
            ({
                let p = split_pieces(s@.take(i as int));
                &&& seqs_of(done@) == p.drop_last().map_values(|l: Seq<char>| strip_cr(l))
                &&& cur@ == p.last()
            }),
        decreases s.len() - i,
    {
        proof {
            lemma_lines_step(s@, i as int);
            lemma_split_pieces_nonempty(s@.take(i as int));
        }
        let ghost p = split_pieces(s@.take(i as int));
        if s[i] == '\n' {
            let ghost old_done = done@;
            if cur.len() > 0 && cur[cur.len() - 1] == '\r' {
                cur.pop();
            }
            assert(cur@ == strip_cr(p.last()));
            let ghost pushed = cur@;
            done.push(cur);
            cur = Vec::new();
            let ghost q = split_pieces(s@.take(i + 1));
            assert(q == p.push(Seq::<char>::empty()));
            assert(q.drop_last() =~= p);
            let ghost m = p.map_values(|l: Seq<char>| strip_cr(l));
            let ghost m0 = p.drop_last().map_values(|l: Seq<char>| strip_cr(l));
            assert(m =~= m0.push(strip_cr(p.last())));
            assert(seqs_of(done@) =~= seqs_of(old_done).push(pushed));
            assert(seqs_of(done@) =~= m);
        } else {
            cur.push(s[i]);
            let ghost q = split_pieces(s@.take(i + 1));
            assert(q.drop_last() =~= p.drop_last());
            assert(seqs_of(done@) =~= q.drop_last().map_values(|l: Seq<char>| strip_cr(l)));
        }
        i += 1;
    }
    proof {
        assert(s@.take(s.len() as int) == s@);
        lemma_split_pieces_nonempty(s@);
    }
    if cur.len() > 0 {
        done.push(cur);
        assert(seqs_of(done@) =~= lines_of(s@));
    } else {
        assert(seqs_of(done@) =~= lines_of(s@));
    }
    done
}

/// Joins `parts` with `sep` between consecutive parts.
pub fn join_chars(parts: &Vec<Vec<char>>, sep: &[char]) -> (out: Vec<char>)
    ensures
        out@ == join(seqs_of(parts@), sep@),
{
    let mut out: Vec<char> = Vec::new();
    let mut i: usize = 0;
    while i < parts.len()
        invariant
            i <= parts.len(),
            out@ == join(seqs_of(parts@).take(i as int), sep@),
        decreases parts.len() - i,
    {
        let ghost before = seqs_of(parts@).take(i as int);
        let ghost after = seqs_of(parts@).take(i + 1);
        assert(after.drop_last() == before);
        if i > 0 {
            push_chars(&mut out, sep);
        }
        push_chars(&mut out, parts[i].as_slice());
        proof {
            if i == 0 {
                assert(after.len() == 1);
                assert(out@ =~= after[0]);
            }
        }
        i += 1;
    }
    assert(seqs_of(parts@).take(parts.len() as int) == seqs_of(parts@));
    out
}

// ---------------------------------------------------------------------------
// Numbers
// ---------------------------------------------------------------------------

pub open spec fn digit(d: nat) -> char {
    if d == 0 { '0' }
    else if d == 1 { '1' }
    else if d == 2 { '2' }
    else if d == 3 { '3' }
    else if d == 4 { '4' }
    else if d == 5 { '5' }
    else if d == 6 { '6' }
    else if d == 7 { '7' }
    else if d == 8 { '8' }
    else if d == 9 { '9' }
    else if d == 10 { 'a' }
    else if d == 11 { 'b' }
    else if d == 12 { 'c' }
    else if d == 13 { 'd' }
    else if d == 14 { 'e' }
    else { 'f' }
}

/// Lower-case hexadecimal or decimal digit for `d < 16`.
pub fn digit_char(d: u64) -> (c: char)
    requires
        d < 16,
    ensures
        c == digit(d as nat),
{
    if d == 0 { '0' }
    else if d == 1 { '1' }
    else if d == 2 { '2' }
    else if d == 3 { '3' }
    else if d == 4 { '4' }
    else if d == 5 { '5' }
    else if d == 6 { '6' }
    else if d == 7 { '7' }
    else if d == 8 { '8' }
    else if d == 9 { '9' }
    else if d == 10 { 'a' }
    else if d == 11 { 'b' }
    else if d == 12 { 'c' }
    else if d == 13 { 'd' }
    else if d == 14 { 'e' }
    else { 'f' }
}

/// The decimal rendering of `n` (as `format!("{}", n)` prints it).
pub open spec fn dec(n: nat) -> Seq<char>
    decreases n,
{
    if n < 10 {
        seq![digit(n)]
    } else {
        dec(n / 10).push(digit(n % 10))
    }
}


/// Appends the decimal rendering of `n`.
pub fn push_dec(out: &mut Vec<char>, n: u64)
    ensures
        final(out)@ == old(out)@ + dec(n as nat),
    decreases n,
{
    if n >= 10 {
        push_dec(out, n / 10);
    }
    let c = digit_char(n % 10);
    out.push(c);
    assert(old(out)@ + dec(n as nat) =~= out@);
}

/// Right-aligns `s` in a field of `width` characters, padding with spaces
/// (as `format!("{:width$}", n)` does for numbers).
pub open spec fn pad_left(s: Seq<char>, width: nat) -> Seq<char> {
    if s.len() >= width {
        s
    } else {
        Seq::new((width - s.len()) as nat, |i: int| ' ') + s
    }
}

/// Appends `n` right-aligned in a field of `width` characters.
pub fn push_dec_padded(out: &mut Vec<char>, n: u64, width: usize)
    ensures
        final(out)@ == old(out)@ + pad_left(dec(n as nat), width as nat),
{
    let mut digits: Vec<char> = Vec::new();
    push_dec(&mut digits, n);
    assert(digits@ =~= dec(n as nat));
    let ghost start = out@;
    if digits.len() < width {
        let pad = width - digits.len();
        let mut k: usize = 0;
        while k < pad
            invariant
                k <= pad,
                out@ == start + Seq::new(k as nat, |i: int| ' '),
            decreases pad - k,
        {
            out.push(' ');
            assert(start + Seq::new((k + 1) as nat, |i: int| ' ') =~= (start + Seq::new(
                k as nat,
                |i: int| ' ',
            )).push(' '));
            k += 1;
        }
    }
    push_chars(out, digits.as_slice());
    assert(out@ =~= start + pad_left(dec(n as nat), width as nat));
}

/// `n` in lower-case hexadecimal, zero-padded to `width` digits
/// (as `format!("{:0width$x}", n)` prints values below `16^width`).
pub open spec fn hex_fixed(n: nat, width: nat) -> Seq<char>
    decreases width,
{
    if width == 0 {
        Seq::<char>::empty()
    } else {
        hex_fixed(n / 16, (width - 1) as nat).push(digit(n % 16))
    }
}

/// Appends `n` as `width` lower-case hexadecimal digits.
pub fn push_hex_fixed(out: &mut Vec<char>, n: u64, width: u32)
    ensures
        final(out)@ == old(out)@ + hex_fixed(n as nat, width as nat),
    decreases width,
{
    if width > 0 {
        push_hex_fixed(out, n / 16, width - 1);
        let c = digit_char(n % 16);
        out.push(c);
        assert(old(out)@ + hex_fixed(n as nat, width as nat) =~= out@);
    } else {
        assert(old(out)@ + hex_fixed(n as nat, width as nat) =~= out@);
    }
}

// ---------------------------------------------------------------------------
// Whitespace, comparison, parsing
// ---------------------------------------------------------------------------

/// Unicode `White_Space`, the set `char::is_whitespace` tests for.
pub open spec fn is_ws(c: char) -> bool {
    ||| ('\u{9}' <= c <= '\u{d}')
    ||| c == ' '
    ||| c == '\u{85}'
    ||| c == '\u{a0}'
    ||| c == '\u{1680}'
    ||| ('\u{2000}' <= c <= '\u{200a}')
    ||| c == '\u{2028}'
    ||| c == '\u{2029}'
    ||| c == '\u{202f}'
    ||| c == '\u{205f}'
    ||| c == '\u{3000}'
}

pub fn is_ws_exec(c: char) -> (r: bool)
    ensures
        r == is_ws(c),
{
    ('\u{9}' <= c && c <= '\u{d}') || c == ' ' || c == '\u{85}' || c == '\u{a0}' || c == '\u{1680}'
        || ('\u{2000}' <= c && c <= '\u{200a}') || c == '\u{2028}' || c == '\u{2029}' || c
        == '\u{202f}' || c == '\u{205f}' || c == '\u{3000}'
}

/// `s` without its leading whitespace.
pub open spec fn trim_start(s: Seq<char>) -> Seq<char>
    decreases s.len(),
{
    if s.len() > 0 && is_ws(s[0]) {
        trim_start(s.skip(1))
    } else {
        s
    }
}

/// `s` without its trailing whitespace.
pub open spec fn trim_end(s: Seq<char>) -> Seq<char>
    decreases s.len(),
{
    if s.len() > 0 && is_ws(s.last()) {
        trim_end(s.drop_last())
    } else {
        s
    }
}

/// `s` without leading and trailing whitespace (as `str::trim` gives it).
pub open spec fn trim(s: Seq<char>) -> Seq<char> {
    trim_end(trim_start(s))
}

/// The characters of `s` without leading and trailing whitespace.
pub fn trim_chars(s: &[char]) -> (r: Vec<char>)
    ensures
        r@ == trim(s@),
{
    let n = s.len();
    let mut i: usize = 0;
    assert(s@.skip(0) =~= s@);
    while i < n && is_ws_exec(s[i])
        invariant
            n == s@.len(),
            i <= n,
            trim_start(s@) == trim_start(s@.skip(i as int)),
        decreases n - i,
    {
        assert(s@.skip(i as int).skip(1) =~= s@.skip(i + 1));
        i += 1;
    }
    let ghost t = s@.skip(i as int);
    assert(trim_start(s@) == t);
    let mut j: usize = n;
    while j > i && is_ws_exec(s[j - 1])
        invariant
            n == s@.len(),
            i <= j <= n,
            t == s@.skip(i as int),
            trim_end(t) == trim_end(s@.subrange(i as int, j as int)),
        decreases j,
    {
        assert(s@.subrange(i as int, j as int).drop_last() =~= s@.subrange(i as int, j - 1));
        j -= 1;
    }
    slice_chars(s, i, j)
}

/// Whether two strings hold the same characters.
pub fn str_eq(a: &str, b: &str) -> (r: bool)
    ensures
        r == (a@ == b@),
{
    let x = chars_of(a);
    let y = chars_of(b);
    chars_eq(x.as_slice(), y.as_slice())
}

/// Whether `c` occurs in `s`.
pub fn contains_char(s: &[char], c: char) -> (r: bool)
    ensures
        r == has_char(s@, c),
{
    let mut i: usize = 0;
    while i < s.len()
        invariant
            i <= s.len(),
            forall|j: int| 0 <= j < i ==> s@[j] != c,
        decreases s.len() - i,
    {
        if s[i] == c {
            return true;
        }
        i += 1;
    }
    false
}

pub open spec fn is_digit(c: char) -> bool {
    '0' <= c <= '9'
}

pub open spec fn all_digits(s: Seq<char>) -> bool {
    forall|i: int| 0 <= i < s.len() ==> is_digit(#[trigger] s[i])
}

/// The value of a string of decimal digits.
pub open spec fn dec_value(s: Seq<char>) -> nat
    decreases s.len(),
{
    if s.len() == 0 {
        0
    } else {
        dec_value(s.drop_last()) * 10 + ((s.last() as int) - ('0' as int)) as nat
    }
}

/// What `str::parse::<usize>` gives: an optional `+`, then at least one
/// decimal digit, and a value that fits.
pub open spec fn parse_usize_spec(s: Seq<char>) -> Option<usize> {
    let d = if s.len() > 0 && s[0] == '+' { s.skip(1) } else { s };
    if d.len() > 0 && all_digits(d) && dec_value(d) <= usize::MAX {
        Some(dec_value(d) as usize)
    } else {
        None
    }
}

proof fn lemma_dec_value_step(s: Seq<char>, i: int)
    requires
        0 <= i < s.len(),
        is_digit(s[i]),
    ensures
        dec_value(s.take(i + 1)) == dec_value(s.take(i)) * 10 + ((s[i] as int) - ('0' as int)),
{
    assert(s.take(i + 1).drop_last() =~= s.take(i));
}

proof fn lemma_dec_value_mono(s: Seq<char>, i: int)
    requires
        0 <= i <= s.len(),
        all_digits(s),
    ensures
        dec_value(s.take(i)) <= dec_value(s),
    decreases s.len() - i,
{
    if i < s.len() {
        lemma_dec_value_mono(s, i + 1);
        lemma_dec_value_step(s, i);
        assert(is_digit(s[i]));
    } else {
        assert(s.take(i) =~= s);
    }
}

/// Parses a decimal number as `str::parse::<usize>` does.
pub fn parse_usize(s: &[char]) -> (r: Option<usize>)
    ensures
        r == parse_usize_spec(s@),
{
    let start: usize = if s.len() > 0 && s[0] == '+' { 1 } else { 0 };
    let ghost d = if s@.len() > 0 && s@[0] == '+' { s@.skip(1) } else { s@ };
    assert(d =~= s@.skip(start as int));
    if start >= s.len() {
        return None;
    }
    let mut v: usize = 0;
    let mut i: usize = start;
    while i < s.len()
        invariant
            start <= i <= s@.len(),
            d =~= s@.skip(start as int),
            d == (if s@.len() > 0 && s@[0] == '+' { s@.skip(1) } else { s@ }),
            forall|k: int| 0 <= k < i - start ==> is_digit(#[trigger] d[k]),
            v == dec_value(d.take(i - start)),
        decreases s.len() - i,
    {
        let c = s[i];
        assert(0 <= i - start < d.len());
        assert(d[i - start] == c);
        if !('0' <= c && c <= '9') {
            assert(!is_digit(d[i - start]));
            assert(!all_digits(d));
            return None;
        }
        proof {
            assert(d[i - start] == c);
            lemma_dec_value_step(d, i - start);
        }
        let dv = (c as u32 - '0' as u32) as usize;
        match v.checked_mul(10) {
            None => {
                proof {
                    assert(v * 10 > usize::MAX);
                    if all_digits(d) {
                        lemma_dec_value_mono(d, i - start + 1);
                        assert(dec_value(d.take(i - start + 1)) == v * 10 + dv);
                        assert(dec_value(d) > usize::MAX);
                    }
                }
                return None;
            },
            Some(m) => {
                match m.checked_add(dv) {
                    None => {
                        proof {
                            if all_digits(d) {
                                lemma_dec_value_mono(d, i - start + 1);
                            }
                        }
                        return None;
                    },
                    Some(nv) => {
                        v = nv;
                    },
                }
            },
        }
        i += 1;
    }
    assert(d.take(i - start) =~= d);
    Some(v)
}

/// What `str::parse::<i32>` gives: an optional sign, then at least one
/// decimal digit, and a value that fits.
pub open spec fn parse_i32_spec(s: Seq<char>) -> Option<i32> {
    let neg = s.len() > 0 && s[0] == '-';
    let d = if s.len() > 0 && (s[0] == '+' || s[0] == '-') { s.skip(1) } else { s };
    if d.len() > 0 && all_digits(d) && dec_value(d) <= (if neg { 2147483648nat } else { 2147483647nat }) {
        Some((if neg { -(dec_value(d) as int) } else { dec_value(d) as int }) as i32)
    } else {
        None
    }
}

/// Parses a decimal number as `str::parse::<i32>` does.
pub fn parse_i32(s: &[char]) -> (r: Option<i32>)
    ensures
        r == parse_i32_spec(s@),
{
    let neg = s.len() > 0 && s[0] == '-';
    let start: usize = if s.len() > 0 && (s[0] == '+' || s[0] == '-') { 1 } else { 0 };
    let ghost d = if s@.len() > 0 && (s@[0] == '+' || s@[0] == '-') { s@.skip(1) } else { s@ };
    assert(d =~= s@.skip(start as int));
    if start >= s.len() {
        return None;
    }
    let limit: u64 = if neg { 2147483648 } else { 2147483647 };
    let mut v: u64 = 0;
    let mut i: usize = start;
    while i < s.len()
        invariant
            start <= i <= s@.len(),
            d =~= s@.skip(start as int),
            forall|k: int| 0 <= k < i - start ==> is_digit(#[trigger] d[k]),
            v == dec_value(d.take(i - start)),
            v <= limit,
            limit == (if neg { 2147483648u64 } else { 2147483647u64 }),
            neg == (s@.len() > 0 && s@[0] == '-'),
            d == (if s@.len() > 0 && (s@[0] == '+' || s@[0] == '-') { s@.skip(1) } else { s@ }),
        decreases s.len() - i,
    {
        let c = s[i];
        assert(d[i - start] == c);
        if !('0' <= c && c <= '9') {
            assert(!is_digit(d[i - start]));
            return None;
        }
        proof {
            lemma_dec_value_step(d, i - start);
        }
        let dv = (c as u32 - '0' as u32) as u64;
        let nv = v * 10 + dv;
        if nv > limit {
            proof {
                if all_digits(d) {
                    lemma_dec_value_mono(d, i - start + 1);
                }
            }
            return None;
        }
        v = nv;
        i += 1;
    }
    assert(d.take(i - start) =~= d);
    if neg {
        Some((0 - (v as i64)) as i32)
    } else {
        Some(v as i32)
    }
}

// ---------------------------------------------------------------------------
// Substrings
// ---------------------------------------------------------------------------

/// `n` occurs in `h` at index `i`.
pub open spec fn occurs_at(h: Seq<char>, n: Seq<char>, i: int) -> bool {
    0 <= i && i + n.len() <= h.len() && h.subrange(i, i + n.len()) == n
}

/// `n` occurs somewhere in `h`.
pub open spec fn contains_seq(h: Seq<char>, n: Seq<char>) -> bool {
    exists|i: int| occurs_at(h, n, i)
}

/// The first index at which `n` occurs in `h`, or -1.
pub open spec fn first_occ(h: Seq<char>, n: Seq<char>) -> int
    decreases h.len(),
{
    if h.len() < n.len() {
        -1
    } else if h.take(n.len() as int) == n {
        0
    } else if h.len() == 0 {
        -1
    } else {
        let k = first_occ(h.skip(1), n);
        if k < 0 { -1 } else { k + 1 }
    }
}

/// `first_occ` is the least index where `n` occurs, and -1 exactly when
/// it occurs nowhere.
pub proof fn lemma_first_occ(h: Seq<char>, n: Seq<char>)
    ensures
        first_occ(h, n) >= 0 ==> occurs_at(h, n, first_occ(h, n)),
        forall|j: int| 0 <= j < first_occ(h, n) ==> !occurs_at(h, n, j),
        first_occ(h, n) < 0 ==> !contains_seq(h, n),
        first_occ(h, n) >= -1,
    decreases h.len(),
{
    if h.len() < n.len() {
    } else if h.take(n.len() as int) == n {
        assert(h.subrange(0, n.len() as int) =~= h.take(n.len() as int));
    } else if h.len() == 0 {
    } else {
        let t = h.skip(1);
        lemma_first_occ(t, n);
        assert(!occurs_at(h, n, 0)) by {
            assert(h.subrange(0, n.len() as int) =~= h.take(n.len() as int));
        }
        assert forall|j: int| 1 <= j && occurs_at(h, n, j) implies occurs_at(t, n, j - 1) by {
            assert(t.subrange(j - 1, j - 1 + n.len()) =~= h.subrange(j, j + n.len()));
        }
        assert forall|j: int| 0 <= j && occurs_at(t, n, j) implies occurs_at(h, n, j + 1) by {
            assert(t.subrange(j, j + n.len()) =~= h.subrange(j + 1, j + 1 + n.len()));
        }
        if first_occ(h, n) < 0 {
            assert forall|j: int| !occurs_at(h, n, j) by {
                if occurs_at(h, n, j) && j >= 1 {
                    assert(occurs_at(t, n, j - 1));
                }
            }
        }
    }
}

/// Whether `n` occurs in `h` at `i`.
pub fn matches_at(h: &[char], n: &[char], i: usize) -> (r: bool)
    ensures
        r == occurs_at(h@, n@, i as int),
{
    if i > h.len() || h.len() - i < n.len() {
        return false;
    }
    let hl = h.len();
    let mut j: usize = 0;
    while j < n.len()
        invariant
            j <= n@.len(),
            hl == h@.len(),
            i + n@.len() <= h@.len(),
            forall|k: int| 0 <= k < j ==> h@[i + k] == n@[k],
        decreases n@.len() - j,
    {
        if h[i + j] != n[j] {
            assert(h@.subrange(i as int, i + n@.len())[j as int] != n@[j as int]);
            return false;
        }
        j += 1;
    }
    assert(h@.subrange(i as int, i + n@.len()) =~= n@);
    true
}

/// Whether the text `n` occurs in `h`.
pub fn contains_lit(h: &[char], n: &str) -> (r: bool)
    ensures
        r == contains_seq(h@, n@),
{
    let nc = chars_of(n);
    proof {
        lemma_first_occ(h@, nc@);
        assert(h@.skip(0) =~= h@);
    }
    match find_from(h, nc.as_slice(), 0) {
        Some(_) => true,
        None => false,
    }
}

/// The first index at or after `from` at which `n` occurs in `h`.
pub fn find_from(h: &[char], n: &[char], from: usize) -> (r: Option<usize>)
    requires
        from <= h@.len(),
    ensures
        match r {
            Some(k) => first_occ(h@.skip(from as int), n@) == k - from && from <= k,
            None => first_occ(h@.skip(from as int), n@) < 0,
        },
{
    let mut i: usize = from;
    while i <= h.len()
        invariant
            from <= i,
            i <= h@.len() + 1,
            first_occ(h@.skip(from as int), n@) == if i > h@.len() {
                -1
            } else {
                let k = first_occ(h@.skip(i as int), n@);
                if k < 0 { -1 } else { k + (i - from) }
            },
        decreases h@.len() + 1 - i,
    {
        let ghost t = h@.skip(i as int);
        if h.len() - i < n.len() {
            assert(first_occ(t, n@) == -1);
            return None;
        }
        if matches_at(h, n, i) {
            assert(t.take(n@.len() as int) =~= h@.subrange(i as int, i + n@.len()));
            return Some(i);
        }
        assert(t.take(n@.len() as int) =~= h@.subrange(i as int, i + n@.len()));
        if i == h.len() {
            return None;
        }
        assert(t.skip(1) =~= h@.skip(i + 1));
        i += 1;
    }
    None
}

/// The number of non-overlapping occurrences of a non-empty `n` in `h`,
/// counted from the left.
pub open spec fn count_matches(h: Seq<char>, n: Seq<char>) -> nat
    decreases h.len(),
{
    if n.len() == 0 || h.len() < n.len() {
        0
    } else if h.take(n.len() as int) == n {
        1 + count_matches(h.skip(n.len() as int), n)
    } else {
        count_matches(h.skip(1), n)
    }
}

/// `h` begins with `p`.
pub open spec fn starts_with(h: Seq<char>, p: Seq<char>) -> bool {
    h.len() >= p.len() && h.take(p.len() as int) == p
}

/// `h` ends with `p`.
pub open spec fn ends_with(h: Seq<char>, p: Seq<char>) -> bool {
    h.len() >= p.len() && h.skip(h.len() - p.len()) == p
}

pub fn starts_with_exec(h: &[char], p: &[char]) -> (r: bool)
    ensures
        r == starts_with(h@, p@),
{
    let r = matches_at(h, p, 0);
    assert(h@.len() >= p@.len() ==> h@.subrange(0, p@.len() as int) =~= h@.take(p@.len() as int));
    r
}

pub fn ends_with_exec(h: &[char], p: &[char]) -> (r: bool)
    ensures
        r == ends_with(h@, p@),
{
    if h.len() < p.len() {
        return false;
    }
    let i = h.len() - p.len();
    let r = matches_at(h, p, i);
    assert(h@.subrange(i as int, h@.len() as int) =~= h@.skip(i as int));
    r
}

/// ASCII upper-case letters mapped to lower case, all else kept.
pub open spec fn ascii_lower(c: char) -> char {
    if 'A' <= c <= 'Z' { ((c as u8) + 32) as char } else { c }
}

pub open spec fn lower_seq(s: Seq<char>) -> Seq<char> {
    Seq::new(s.len(), |i: int| ascii_lower(s[i]))
}

/// `s` with ASCII letters in lower case (as `str::to_ascii_lowercase`).
pub fn to_ascii_lower(s: &[char]) -> (r: Vec<char>)
    ensures
        r@ == lower_seq(s@),
{
    let mut out: Vec<char> = Vec::new();
    let mut i: usize = 0;
    while i < s.len()
        invariant
            i <= s@.len(),
            out@ == lower_seq(s@).take(i as int),
        decreases s@.len() - i,
    {
        let c = s[i];
        let l = if 'A' <= c && c <= 'Z' { ((c as u8) + 32) as char } else { c };
        out.push(l);
        assert(out@ =~= lower_seq(s@).take(i + 1));
        i += 1;
    }
    assert(lower_seq(s@).take(s@.len() as int) =~= lower_seq(s@));
    out
}

} // verus!
