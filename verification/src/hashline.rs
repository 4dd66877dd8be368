//! Line anchors: a 2-hex-digit content hash per line plus a 4-hex-digit
//! rolling hash of everything up to and including that line, both built on
//! 32-bit FNV-1a over the UTF-8 bytes.
use vstd::prelude::*;
use vstd::utf8::encode_utf8;
use vstd::string::StrSliceExecFns;
use crate::text::{chars_of, dec, hex_fixed, join, join_chars, lines_of, push_chars, push_dec, push_hex_fixed, push_str, seqs_of, split_lines, string_from_chars};

verus! {

pub const FNV_OFFSET: u32 = 2_166_136_261u32;
pub const FNV_PRIME: u32 = 16_777_619u32;
pub const LINE_HASH_LEN: usize = 2usize;
pub const PREFIX_HASH_LEN: usize = 4usize;
pub const ANCHOR_LEN: usize = 6usize;

/// One FNV-1a step: xor the byte in, multiply by the prime modulo 2^32.
pub open spec fn fnv_step(h: u32, b: u8) -> u32 {
    (((h ^ (b as u32)) as nat * FNV_PRIME as nat) % 0x1_0000_0000) as u32
}

/// FNV-1a over `bytes`, starting from `state`.
pub open spec fn fnv1a(state: u32, bytes: Seq<u8>) -> u32
    decreases bytes.len(),
{
    if bytes.len() == 0 {
        state
    } else {
        fnv_step(fnv1a(state, bytes.drop_last()), bytes.last())
    }
}

/// The 32-bit hash folded to one byte.
pub open spec fn fold_to_byte(h: u32) -> u8 {
    (h ^ (h >> 8) ^ (h >> 16) ^ (h >> 24)) as u8
}

/// The 32-bit rolling state folded to 16 bits.
pub open spec fn fold_to_u16(state: u32) -> u16 {
    ((state >> 16) ^ (state & 0xFFFF)) as u16
}

/// The 2-character content hash of a line.
pub open spec fn line_hash(content: Seq<char>) -> Seq<char> {
    hex_fixed(fold_to_byte(fnv1a(FNV_OFFSET, encode_utf8(content))) as nat, 2)
}

/// The rolling state after absorbing one line and its trailing newline.
pub open spec fn prefix_step(state: u32, line: Seq<char>) -> u32 {
    fnv1a(state, encode_utf8(line).push(10u8))
}

/// The 4-character rendering of a rolling state.
pub open spec fn prefix_hash(state: u32) -> Seq<char> {
    hex_fixed(fold_to_u16(state) as nat, 4)
}

/// The rolling state after the first `k` lines.
pub open spec fn prefix_state(lines: Seq<Seq<char>>, k: nat) -> u32
    decreases k,
{
    if k == 0 {
        FNV_OFFSET
    } else {
        prefix_step(prefix_state(lines, (k - 1) as nat), lines[k - 1])
    }
}

/// The anchor of a line whose rolling state (after the line) is `state`.
pub open spec fn anchor_of(content: Seq<char>, state: u32) -> Seq<char> {
    line_hash(content) + prefix_hash(state)
}

/// `{n}:{anchor}|{content}`.
pub open spec fn hashline(n: nat, content: Seq<char>, state: u32) -> Seq<char> {
    dec(n) + seq![':'] + anchor_of(content, state) + seq!['|'] + content
}

/// The anchor of line `i` (0-based) of `lines`.
pub open spec fn anchor_at(lines: Seq<Seq<char>>, i: int) -> Seq<char> {
    anchor_of(lines[i], prefix_state(lines, (i + 1) as nat))
}

/// The anchored rendering of line `i` (0-based) of `lines`.
pub open spec fn hashline_at(lines: Seq<Seq<char>>, i: int) -> Seq<char> {
    hashline((i + 1) as nat, lines[i], prefix_state(lines, (i + 1) as nat))
}

/// Every line of `lines` in anchored form.
pub open spec fn hashlines_of(lines: Seq<Seq<char>>) -> Seq<Seq<char>> {
    Seq::new(lines.len(), |i: int| hashline_at(lines, i))
}

pub open spec fn is_hex_char(c: char) -> bool {
    ('0' <= c <= '9') || ('a' <= c <= 'f') || ('A' <= c <= 'F')
}

/// A well-formed anchor: six hexadecimal digits.
pub open spec fn is_anchor(s: Seq<char>) -> bool {
    s.len() == ANCHOR_LEN && forall|i: int| 0 <= i < s.len() ==> is_hex_char(#[trigger] s[i])
}

pub open spec fn all_hex(s: Seq<char>) -> bool {
    forall|i: int| 0 <= i < s.len() ==> is_hex_char(#[trigger] s[i])
}

pub fn is_hex_char_exec(c: char) -> (r: bool)
    ensures
        r == is_hex_char(c),
{
    ('0' <= c && c <= '9') || ('a' <= c && c <= 'f') || ('A' <= c && c <= 'F')
}

/// Whether every character is a hexadecimal digit.
pub fn all_hex_exec(s: &[char]) -> (r: bool)
    ensures
        r == all_hex(s@),
{
    let mut i: usize = 0;
    while i < s.len()
        invariant
            i <= s.len(),
            forall|j: int| 0 <= j < i ==> is_hex_char(#[trigger] s@[j]),
        decreases s.len() - i,
    {
        if !is_hex_char_exec(s[i]) {
            return false;
        }
        i += 1;
    }
    true
}

/// FNV-1a over a byte slice, starting from `state`.
pub fn fnv1a_bytes(state: u32, bytes: &[u8]) -> (h: u32)
    ensures
        h == fnv1a(state, bytes@),
{
    let mut h = state;
    let mut i: usize = 0;
    while i < bytes.len()
        invariant
            i <= bytes.len(),
            h == fnv1a(state, bytes@.take(i as int)),
        decreases bytes.len() - i,
    {
        assert(bytes@.take(i + 1).drop_last() == bytes@.take(i as int));
        h = (h ^ (bytes[i] as u32)).wrapping_mul(FNV_PRIME);
        i += 1;
    }
    assert(bytes@.take(bytes.len() as int) == bytes@);
    h
}

/// The content hash of a line held as characters.
pub fn line_hash_chars(content: &[char]) -> (r: Vec<char>)
    ensures
        r@ == line_hash(content@),
{
    let s = string_from_chars(content);
    let h = fnv1a_bytes(FNV_OFFSET, s.as_str().as_bytes());
    let folded = (h ^ (h >> 8) ^ (h >> 16) ^ (h >> 24)) as u8;
    let mut out: Vec<char> = Vec::new();
    push_hex_fixed(&mut out, folded as u64, 2);
    assert(out@ =~= line_hash(content@));
    out
}

/// Advances the rolling state by one line held as characters.
pub fn prefix_step_chars(state: u32, content: &[char]) -> (r: u32)
    ensures
        r == prefix_step(state, content@),
{
    let s = string_from_chars(content);
    let h = fnv1a_bytes(state, s.as_str().as_bytes());
    let r = (h ^ 10u32).wrapping_mul(FNV_PRIME);
    proof {
        let b = encode_utf8(content@).push(10u8);
        assert(b.drop_last() == encode_utf8(content@));
    }
    r
}

/// The 4-character rendering of a rolling state, as characters.
pub fn prefix_hash_chars(state: u32) -> (r: Vec<char>)
    ensures
        r@ == prefix_hash(state),
{
    let folded = ((state >> 16) ^ (state & 0xFFFF)) as u16;
    let mut out: Vec<char> = Vec::new();
    push_hex_fixed(&mut out, folded as u64, 4);
    assert(out@ =~= prefix_hash(state));
    out
}

/// Anchor of a line, advancing the rolling state past it.
pub fn anchor_chars(content: &[char], prefix_state: &mut u32) -> (r: Vec<char>)
    ensures
        *final(prefix_state) == prefix_step(*old(prefix_state), content@),
        r@ == anchor_of(content@, *final(prefix_state)),
{
    let mut out = line_hash_chars(content);
    *prefix_state = prefix_step_chars(*prefix_state, content);
    let p = prefix_hash_chars(*prefix_state);
    push_chars(&mut out, p.as_slice());
    out
}

/// Anchored rendering of a line, advancing the rolling state past it.
pub fn hashline_chars(line_number: usize, content: &[char], prefix_state: &mut u32) -> (r: Vec<char>)
    ensures
        *final(prefix_state) == prefix_step(*old(prefix_state), content@),
        r@ == hashline(line_number as nat, content@, *final(prefix_state)),
{
    let mut out: Vec<char> = Vec::new();
    push_dec(&mut out, line_number as u64);
    out.push(':');
    let anchor = anchor_chars(content, prefix_state);
    push_chars(&mut out, anchor.as_slice());
    out.push('|');
    push_chars(&mut out, content);
    assert(out@ =~= hashline(line_number as nat, content@, *prefix_state));
    out
}

/// The anchored rendering of every line, in order.
pub fn hashlines_chars(lines: &Vec<Vec<char>>) -> (out: Vec<Vec<char>>)
    ensures
        seqs_of(out@) == hashlines_of(seqs_of(lines@)),
{
    let ghost ls = seqs_of(lines@);
    let mut out: Vec<Vec<char>> = Vec::new();
    let mut state = FNV_OFFSET;
    let mut i: usize = 0;
    while i < lines.len()
        invariant
            i <= lines.len(),
            ls == seqs_of(lines@),
            state == prefix_state(ls, i as nat),
            seqs_of(out@) == hashlines_of(ls).take(i as int),
        decreases lines.len() - i,
    {
        let h = hashline_chars(i + 1, lines[i].as_slice(), &mut state);
        let ghost before = seqs_of(out@);
        out.push(h);
        assert(seqs_of(out@) =~= before.push(h@));
        assert(hashlines_of(ls).take(i + 1) =~= hashlines_of(ls).take(i as int).push(
            hashline_at(ls, i as int),
        ));
        i += 1;
    }
    assert(hashlines_of(ls).take(lines.len() as int) =~= hashlines_of(ls));
    out
}

// ---------------------------------------------------------------------------
// Public string-level interface
// ---------------------------------------------------------------------------

/// Compute a 2-char hex content hash for anchor generation (FNV-1a 32-bit
/// over the UTF-8 bytes, folded to 8 bits).
pub fn compute_line_hash(content: &str) -> (r: String)
    ensures
        r@ == line_hash(content@),
{
    let h = fnv1a_bytes(FNV_OFFSET, content.as_bytes());
    let folded = (h ^ (h >> 8) ^ (h >> 16) ^ (h >> 24)) as u8;
    let mut out: Vec<char> = Vec::new();
    push_hex_fixed(&mut out, folded as u64, 2);
    string_from_chars(out.as_slice())
}

/// Initial rolling state for prefix-hash computation.
pub fn initial_prefix_hash_state() -> (r: u32)
    ensures
        r == FNV_OFFSET,
{
    FNV_OFFSET
}

/// Update rolling prefix-hash state with a single line plus its trailing newline.
pub fn update_prefix_hash_state(state: u32, content: &str) -> (r: u32)
    ensures
        r == prefix_step(state, content@),
{
    let h = fnv1a_bytes(state, content.as_bytes());
    let r = (h ^ 10u32).wrapping_mul(FNV_PRIME);
    proof {
        let b = encode_utf8(content@).push(10u8);
        assert(b.drop_last() == encode_utf8(content@));
    }
    r
}

/// Fold rolling prefix state to a compact 4-char hex identifier.
pub fn format_prefix_hash(state: u32) -> (r: String)
    ensures
        r@ == prefix_hash(state),
{
    let p = prefix_hash_chars(state);
    string_from_chars(p.as_slice())
}

/// The anchor made of a line hash followed by a prefix hash.
pub fn make_anchor(line_hash: &str, prefix_hash: &str) -> (r: String)
    ensures
        r@ == line_hash@ + prefix_hash@,
{
    let mut out: Vec<char> = Vec::new();
    push_str(&mut out, line_hash);
    push_str(&mut out, prefix_hash);
    string_from_chars(out.as_slice())
}

/// Split a well-formed anchor into its line hash and prefix hash.
pub fn parse_anchor(anchor: &str) -> (r: Option<(&str, &str)>)
    ensures
        r is Some <==> is_anchor(anchor@),
        r matches Some((h, p)) ==> h@ == anchor@.take(2) && p@ == anchor@.skip(2),
{
    let cs = chars_of(anchor);
    if cs.len() != ANCHOR_LEN || !all_hex_exec(cs.as_slice()) {
        return None;
    }
    proof {
        assert forall|i: int| 0 <= i < anchor@.len() implies '\0' <= #[trigger] anchor@[i]
            <= '\u{7f}' by {
            assert(is_hex_char(cs@[i]));
        }
        assert(vstd::utf8::is_ascii_chars(anchor@));
    }
    Some((anchor.substring_ascii(0, 2), anchor.substring_ascii(2, 6)))
}

/// Compute a line's anchor and advance the rolling prefix state past it.
pub fn compute_anchor(content: &str, prefix_state: &mut u32) -> (r: String)
    ensures
        *final(prefix_state) == prefix_step(*old(prefix_state), content@),
        r@ == anchor_of(content@, *final(prefix_state)),
{
    let cs = chars_of(content);
    let a = anchor_chars(cs.as_slice(), prefix_state);
    string_from_chars(a.as_slice())
}

/// Format a single anchored line and advance the rolling prefix state.
pub fn format_hashline(line_number: usize, content: &str, prefix_state: &mut u32) -> (r: String)
    ensures
        *final(prefix_state) == prefix_step(*old(prefix_state), content@),
        r@ == hashline(line_number as nat, content@, *final(prefix_state)),
{
    let cs = chars_of(content);
    let h = hashline_chars(line_number, cs.as_slice(), prefix_state);
    string_from_chars(h.as_slice())
}

/// Format content as anchored lines: `{N}:{anchor}|{line}` for each line,
/// joined with `'\n'`.
pub fn format_as_hashlines(content: &str) -> (r: String)
    ensures
        r@ == join(hashlines_of(lines_of(content@)), seq!['\n']),
{
    let cs = chars_of(content);
    let lines = split_lines(cs.as_slice());
    let h = hashlines_chars(&lines);
    let sep = vec!['\n'];
    let joined = join_chars(&h, sep.as_slice());
    assert(sep@ =~= seq!['\n']);
    string_from_chars(joined.as_slice())
}

} // verus!
