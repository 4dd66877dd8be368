//! Properties of the library as a whole: how anchors, reads, edits and
//! searches fit together.
use vstd::prelude::*;
use crate::text::{lines_of, all_digits, count_matches, dec, dec_value, digit, has_char, hex_fixed, is_digit, is_ws, join, parse_usize_spec, trim, trim_end, trim_start};
use crate::hashline::{anchor_at, anchor_of, hashline, hashline_at, hashlines_of, is_anchor, is_hex_char, line_hash, prefix_hash, prefix_state};
use crate::edit::{adjacent, bad_pair, before, both_insert_at_top, is_index, no_bad_pair, ranges_overlap, well_shaped, EditAction, LineEdit, applicable, applied, arranged, in_order, orig_count, region_end, region_start, replacement, replacement_count, splice_from, spec_requires_end_hash, spec_requires_existing_line_anchor, well_formed};
use crate::edit_prepare::{anchor_check, AnchorError};
use crate::dir_search::binary_extensions;
use crate::edit_args::{first_index, line_ref_outcome, normalized_op};
use crate::read::{anchored_listing, byte_len, chunk_outcome, fit_count, lemma_byte_len_append, lemma_fit_count_bounds, pair_contents, range_of, rendered_at, window_lines};
use crate::search::match_window;
use crate::braces::{brace_expansion, expand_run, lemma_next_expansion_shorter, lemma_p64_mono, lemma_weight_drops, next_expansion, p64, weight};
use crate::utils::normalized_path;
use crate::listing::{ListingItem, is_sorted_listing, known_type, lemma_sorted_listing, sorted_listing};
use crate::grep::{GrepLine, is_grep_line};
use crate::write::numbered_name;
use crate::grep::page_of;
use crate::str_replace::replaced_first;
use crate::create::create_shown_lines;
use crate::multi_replace::{chain, chain_problems, sequential};
use crate::processes::{ProcessInfo, admitted, admitted_of, by_start_desc, lemma_admitted_of, lemma_by_start_desc, newest_first};
use crate::text::{first_occ, lemma_first_occ, occurs_at};

verus! {

// ---------------------------------------------------------------------------
// Digits
// ---------------------------------------------------------------------------

proof fn lemma_hex_fixed(n: nat, w: nat)
    ensures
        hex_fixed(n, w).len() == w,
        forall|i: int| 0 <= i < w ==> is_hex_char(#[trigger] hex_fixed(n, w)[i]),
    decreases w,
{
    if w > 0 {
        lemma_hex_fixed(n / 16, (w - 1) as nat);
        let d = n % 16;
        assert(is_hex_char(digit(d)));
    }
}

proof fn lemma_dec_digits(n: nat)
    ensures
        dec(n).len() >= 1,
        all_digits(dec(n)),
        dec_value(dec(n)) == n,
        dec(n)[0] != '+',
    decreases n,
{
    if n >= 10 {
        lemma_dec_digits(n / 10);
        let s = dec(n / 10).push(digit(n % 10));
        assert(s.drop_last() =~= dec(n / 10));
        assert(is_digit(digit(n % 10)));
        assert(((digit(n % 10) as int) - ('0' as int)) == n % 10);
        assert forall|i: int| 0 <= i < s.len() implies is_digit(#[trigger] s[i]) by {
            if i < s.len() - 1 {
                assert(s[i] == dec(n / 10)[i]);
            }
        }
        assert(s[0] == dec(n / 10)[0]);
        assert(dec_value(s) == dec_value(dec(n / 10)) * 10 + (n % 10));
        assert((n / 10) * 10 + n % 10 == n);
        assert(dec(n) == s);
    } else {
        assert(((digit(n) as int) - ('0' as int)) == n);
        assert(is_digit(digit(n)));
        assert(dec(n).drop_last() =~= Seq::<char>::empty());
        assert(dec(n)[0] == digit(n));
        assert(dec_value(dec(n)) == dec_value(dec(n).drop_last()) * 10 + ((dec(n).last() as int) - ('0' as int)) as nat);
        assert(dec_value(Seq::<char>::empty()) == 0);
    }
}

proof fn lemma_trim_plain(s: Seq<char>)
    requires
        s.len() > 0,
        !is_ws(s[0]),
        !is_ws(s.last()),
    ensures
        trim(s) == s,
{
    assert(trim_start(s) == s);
}

// ---------------------------------------------------------------------------
// Anchors
// ---------------------------------------------------------------------------

/// Every anchor is six hexadecimal digits: a two-digit hash of the line
/// followed by a four-digit hash of everything up to it.
pub proof fn law_anchor_is_six_hex_digits(content: Seq<char>, state: u32)
    ensures
        is_anchor(anchor_of(content, state)),
        anchor_of(content, state).take(2) == line_hash(content),
        anchor_of(content, state).skip(2) == prefix_hash(state),
{
    lemma_hex_fixed(crate::hashline::fold_to_byte(crate::hashline::fnv1a(crate::hashline::FNV_OFFSET, vstd::utf8::encode_utf8(content))) as nat, 2);
    lemma_hex_fixed(crate::hashline::fold_to_u16(state) as nat, 4);
    let a = anchor_of(content, state);
    assert forall|i: int| 0 <= i < a.len() implies is_hex_char(#[trigger] a[i]) by {
        if i < 2 {
            assert(a[i] == line_hash(content)[i]);
        } else {
            assert(a[i] == prefix_hash(state)[i - 2]);
        }
    }
    assert(a.take(2) =~= line_hash(content));
    assert(a.skip(2) =~= prefix_hash(state));
}

/// The rolling state after `k` lines depends on those lines only.
pub proof fn law_prefix_state_depends_on_prefix(a: Seq<Seq<char>>, b: Seq<Seq<char>>, k: nat)
    requires
        k <= a.len(),
        k <= b.len(),
        a.take(k as int) == b.take(k as int),
    ensures
        prefix_state(a, k) == prefix_state(b, k),
    decreases k,
{
    if k > 0 {
        assert(a.take(k - 1) =~= a.take(k as int).take(k - 1));
        assert(b.take(k - 1) =~= b.take(k as int).take(k - 1));
        law_prefix_state_depends_on_prefix(a, b, (k - 1) as nat);
        assert(a[k - 1] == a.take(k as int)[k - 1]);
        assert(b[k - 1] == b.take(k as int)[k - 1]);
    }
}

/// The anchor of a line depends on that line and the lines before it,
/// never on the lines after it: a window of a file read with anchors shows
/// the anchors of the whole file.
pub proof fn law_anchor_is_local(a: Seq<Seq<char>>, b: Seq<Seq<char>>, i: int)
    requires
        0 <= i < a.len(),
        i < b.len(),
        a.take(i + 1) == b.take(i + 1),
    ensures
        anchor_at(a, i) == anchor_at(b, i),
        hashline_at(a, i) == hashline_at(b, i),
{
    law_prefix_state_depends_on_prefix(a, b, (i + 1) as nat);
    assert(a[i] == a.take(i + 1)[i]);
    assert(b[i] == b.take(i + 1)[i]);
}

/// An anchored line starts with its line number, a colon and a two-digit
/// hash of its content, and ends with a bar and the content itself.
pub proof fn law_hashline_layout(ls: Seq<Seq<char>>, i: int)
    requires
        0 <= i < ls.len(),
    ensures
        hashlines_of(ls)[i] == dec((i + 1) as nat) + seq![':'] + line_hash(ls[i]) + prefix_hash(prefix_state(ls, (i + 1) as nat)) + seq!['|'] + ls[i],
{
}

/// Listing the lines of a file numbered from 1 with anchors gives the same
/// text as rendering the whole file with anchors.
pub proof fn law_listing_matches_file(ls: Seq<Seq<char>>, v: Seq<(usize, String)>)
    requires
        v.len() == ls.len(),
        forall|i: int| 0 <= i < v.len() ==> (#[trigger] v[i]).0 == i + 1 && v[i].1@ == ls[i],
    ensures
        anchored_listing(v) == hashlines_of(ls),
        forall|i: int| 0 <= i < ls.len() ==> #[trigger] rendered_at(ls, i, true) == hashlines_of(ls)[i],
{
    assert(pair_contents(v) =~= ls);
    assert(anchored_listing(v) =~= hashlines_of(ls));
}

// ---------------------------------------------------------------------------
// From a read to an edit
// ---------------------------------------------------------------------------

/// The `N:anchor` prefix of any anchored line (any number, any content,
/// any rolling state) is the text before its first `|`, and it is parsed
/// back into that number and anchor; the anchor alone parses as an
/// anchor.
pub proof fn law_hashline_prefix_round_trip(n: nat, c: Seq<char>, state: u32, field: Seq<char>)
    requires
        n <= usize::MAX,
    ensures
        first_index(hashline(n, c, state), '|') == dec(n).len() + 7,
        hashline(n, c, state).take(dec(n).len() + 7int) == dec(n) + seq![':'] + anchor_of(c, state),
        line_ref_outcome(dec(n) + seq![':'] + anchor_of(c, state), field) == Ok::<(usize, Option<Seq<char>>), Seq<char>>(
            (n as usize, Some(anchor_of(c, state))),
        ),
        is_anchor(anchor_of(c, state)),
{
    let a = anchor_of(c, state);
    let d = dec(n);
    let t = d + seq![':'] + a;
    let h = hashline(n, c, state);
    law_anchor_is_six_hex_digits(c, state);
    lemma_dec_digits(n);
    assert(!is_ws(t[0])) by {
        assert(t[0] == d[0]);
        assert(is_digit(d[0]));
    }
    assert(!is_ws(t.last())) by {
        assert(t.last() == a[5]);
        assert(is_hex_char(a[5]));
    }
    lemma_trim_plain(t);
    assert forall|k: int| 0 <= k < t.len() implies t[k] != '|' by {
        if k < d.len() {
            assert(t[k] == d[k]);
            assert(is_digit(d[k]));
        } else if k > d.len() {
            assert(t[k] == a[k - d.len() - 1]);
            assert(is_hex_char(a[k - d.len() - 1]));
        }
    }
    assert(!has_char(t, '|'));
    assert(!(t =~= seq!['0'])) by {
        assert(t.len() == d.len() + 7);
    }
    assert(first_index(t, ':') == d.len()) by {
        lemma_first_index_at(t, ':', d.len() as int);
    }
    assert(t.take(d.len() as int) =~= d);
    assert(t.skip(d.len() as int + 1) =~= a);
    lemma_trim_plain(a);
    assert(!(a.len() == 0));
    assert(d.len() > 0 && d[0] != '+');
    assert(parse_usize_spec(d) == Some(n as usize));
    assert(h =~= t + seq!['|'] + c);
    assert(h[t.len() as int] == '|');
    assert forall|j: int| 0 <= j < t.len() implies h[j] != '|' by {
        assert(h[j] == t[j]);
    }
    lemma_first_index_at(h, '|', t.len() as int);
    assert(h.take(t.len() as int) =~= t);
}

/// The `N:anchor` prefix of an anchored line, as a read shows it, is
/// parsed back into its line number and anchor.
pub proof fn law_line_ref_round_trip(ls: Seq<Seq<char>>, i: int, field: Seq<char>)
    requires
        0 <= i < ls.len(),
        i + 1 <= usize::MAX,
    ensures
        line_ref_outcome(dec((i + 1) as nat) + seq![':'] + anchor_at(ls, i), field) == Ok::<(usize, Option<Seq<char>>), Seq<char>>(((i + 1) as usize, Some(anchor_at(ls, i)))),
{
    law_hashline_prefix_round_trip((i + 1) as nat, ls[i], prefix_state(ls, (i + 1) as nat), field);
}

proof fn lemma_first_index_at(t: Seq<char>, c: char, k: int)
    requires
        0 <= k < t.len(),
        t[k] == c,
        forall|j: int| 0 <= j < k ==> t[j] != c,
    ensures
        first_index(t, c) == k,
    decreases t.len(),
{
    if t.len() - 1 > k {
        lemma_first_index_at(t.drop_last(), c, k);
    } else {
        assert(forall|j: int| 0 <= j < t.drop_last().len() ==> t.drop_last()[j] != c);
        lemma_first_index_none(t.drop_last(), c);
    }
}

proof fn lemma_first_index_none(t: Seq<char>, c: char)
    requires
        forall|j: int| 0 <= j < t.len() ==> t[j] != c,
    ensures
        first_index(t, c) == -1,
    decreases t.len(),
{
    if t.len() > 0 {
        lemma_first_index_none(t.drop_last(), c);
    }
}

/// An edit that carries the anchors a read of the current file shows for
/// its lines passes the anchor check: fresh anchors are never stale.
pub proof fn law_fresh_anchors_are_accepted(e: LineEdit, ls: Seq<Seq<char>>)
    requires
        well_formed(e),
        spec_requires_existing_line_anchor(e) ==> {
            &&& 1 <= e.start_line <= ls.len()
            &&& e.start_anchor matches Some(s) && s@ == anchor_at(ls, e.start_line - 1)
        },
        (e.action == EditAction::Replace || e.action == EditAction::Delete) ==> e.end_line <= ls.len(),
        spec_requires_end_hash(e) ==> (e.end_anchor matches Some(s) && s@ == anchor_at(ls, e.end_line - 1)),
    ensures
        anchor_check(e, ls) is None,
{
    if spec_requires_existing_line_anchor(e) {
        let i = e.start_line - 1;
        law_anchor_is_six_hex_digits(ls[i], prefix_state(ls, e.start_line as nat));
        if spec_requires_end_hash(e) {
            let j = e.end_line - 1;
            law_anchor_is_six_hex_digits(ls[j], prefix_state(ls, e.end_line as nat));
        }
    }
}

/// A well-formed anchor equal in both halves to the anchor of a line is
/// that anchor.
proof fn lemma_anchor_halves(a: Seq<char>, content: Seq<char>, state: u32)
    requires
        is_anchor(a),
        line_hash(content) == a.take(2),
        prefix_hash(state) == a.skip(2),
    ensures
        a == anchor_of(content, state),
{
    assert(a =~= a.take(2) + a.skip(2));
}

/// Among edits whose lines lie in the file, an edit passes the anchor
/// check exactly when each anchor it carries is the one a read of the
/// current file shows for that line: any stale anchor, at the start or at
/// the end of the range, is refused.
pub proof fn law_stale_anchors_are_refused(e: LineEdit, ls: Seq<Seq<char>>)
    requires
        well_formed(e),
        spec_requires_existing_line_anchor(e),
        1 <= e.start_line <= ls.len(),
        (e.action == EditAction::Replace || e.action == EditAction::Delete) ==> e.end_line <= ls.len(),
    ensures
        anchor_check(e, ls) is None <==> {
            &&& e.start_anchor->0@ == anchor_at(ls, e.start_line - 1)
            &&& spec_requires_end_hash(e) ==> e.end_anchor->0@ == anchor_at(ls, e.end_line - 1)
        },
        spec_requires_end_hash(e) && e.start_anchor->0@ == anchor_at(ls, e.start_line - 1)
            && e.end_anchor->0@ != anchor_at(ls, e.end_line - 1) ==> {
            ||| anchor_check(e, ls) == Some(AnchorError::InvalidEndAnchor { line: e.end_line })
            ||| anchor_check(e, ls) == Some(AnchorError::StaleEndAnchor { line: e.end_line })
            ||| anchor_check(e, ls) == Some(AnchorError::StaleEndPrefix { line: e.end_line })
        },
{
    let i = e.start_line - 1;
    let a = e.start_anchor->0@;
    law_anchor_is_six_hex_digits(ls[i], prefix_state(ls, e.start_line as nat));
    if is_anchor(a) && line_hash(ls[i]) == a.take(2) && prefix_hash(prefix_state(ls, e.start_line as nat)) == a.skip(2) {
        lemma_anchor_halves(a, ls[i], prefix_state(ls, e.start_line as nat));
    }
    if spec_requires_end_hash(e) {
        let j = e.end_line - 1;
        let b = e.end_anchor->0@;
        law_anchor_is_six_hex_digits(ls[j], prefix_state(ls, e.end_line as nat));
        if is_anchor(b) && line_hash(ls[j]) == b.take(2) && prefix_hash(prefix_state(ls, e.end_line as nat)) == b.skip(2) {
            lemma_anchor_halves(b, ls[j], prefix_state(ls, e.end_line as nat));
        }
    }
}

/// An end anchor read before the end line changed is refused as stale and
/// the error names the end line: when the start anchor is current and the
/// end anchor was read from an earlier version of the file whose end line
/// hashed differently, the check answers `StaleEndAnchor` for that line.
pub proof fn law_changed_end_line_is_refused(e: LineEdit, earlier: Seq<Seq<char>>, ls: Seq<Seq<char>>)
    requires
        well_formed(e),
        spec_requires_end_hash(e),
        1 <= e.start_line,
        e.end_line <= ls.len(),
        e.end_line <= earlier.len(),
        e.start_anchor->0@ == anchor_at(ls, e.start_line - 1),
        e.end_anchor->0@ == anchor_at(earlier, e.end_line - 1),
        line_hash(earlier[e.end_line - 1]) != line_hash(ls[e.end_line - 1]),
    ensures
        anchor_check(e, ls) == Some(AnchorError::StaleEndAnchor { line: e.end_line }),
{
    let i = e.start_line - 1;
    let j = e.end_line - 1;
    law_anchor_is_six_hex_digits(ls[i], prefix_state(ls, e.start_line as nat));
    law_anchor_is_six_hex_digits(earlier[j], prefix_state(earlier, e.end_line as nat));
}

// ---------------------------------------------------------------------------
// Binary files
// ---------------------------------------------------------------------------

/// The extensions (in lower case) that a content search never opens are
/// exactly these: png, jpg, jpeg, gif, webp, svg, ico, pdf, zip, tar, gz,
/// bz2, xz, exe, dll, so, dylib, bin, wasm, mp3, mp4, wav, ogg, flac, ttf,
/// woff and woff2.
pub proof fn law_binary_extension_list(e: Seq<char>)
    ensures
        binary_extensions().contains(e) <==> {
            ||| e == "png"@ ||| e == "jpg"@ ||| e == "jpeg"@ ||| e == "gif"@ ||| e == "webp"@
            ||| e == "svg"@ ||| e == "ico"@ ||| e == "pdf"@ ||| e == "zip"@ ||| e == "tar"@
            ||| e == "gz"@ ||| e == "bz2"@ ||| e == "xz"@ ||| e == "exe"@ ||| e == "dll"@
            ||| e == "so"@ ||| e == "dylib"@ ||| e == "bin"@ ||| e == "wasm"@ ||| e == "mp3"@
            ||| e == "mp4"@ ||| e == "wav"@ ||| e == "ogg"@ ||| e == "flac"@ ||| e == "ttf"@
            ||| e == "woff"@ ||| e == "woff2"@
        },
{
    let b = binary_extensions();
    assert(b.len() == 27);
    assert(b[0] == "png"@ && b[1] == "jpg"@ && b[2] == "jpeg"@ && b[3] == "gif"@ && b[4] == "webp"@);
    assert(b[5] == "svg"@ && b[6] == "ico"@ && b[7] == "pdf"@ && b[8] == "zip"@ && b[9] == "tar"@);
    assert(b[10] == "gz"@ && b[11] == "bz2"@ && b[12] == "xz"@ && b[13] == "exe"@ && b[14] == "dll"@);
    assert(b[15] == "so"@ && b[16] == "dylib"@ && b[17] == "bin"@ && b[18] == "wasm"@ && b[19] == "mp3"@);
    assert(b[20] == "mp4"@ && b[21] == "wav"@ && b[22] == "ogg"@ && b[23] == "flac"@ && b[24] == "ttf"@);
    assert(b[25] == "woff"@ && b[26] == "woff2"@);
    if b.contains(e) {
        let k = choose|k: int| 0 <= k < b.len() && b[k] == e;
        assert(k == 0 || k == 1 || k == 2 || k == 3 || k == 4 || k == 5 || k == 6 || k == 7 || k == 8
            || k == 9 || k == 10 || k == 11 || k == 12 || k == 13 || k == 14 || k == 15 || k == 16
            || k == 17 || k == 18 || k == 19 || k == 20 || k == 21 || k == 22 || k == 23 || k == 24
            || k == 25 || k == 26);
    }
}

// ---------------------------------------------------------------------------
// Ranges and windows
// ---------------------------------------------------------------------------

/// A read range always starts at line 1 or later; a positive size reads
/// exactly that many lines, a negative size at most its magnitude.
pub proof fn law_read_range_shape(total: usize, off: Option<isize>, size: Option<isize>)
    ensures
        range_of(total, off, size).0 >= 1,
        match size {
            Some(sz) => (sz > 0 ==> range_of(total, off, size).1 - range_of(total, off, size).0 + 1 == sz)
                && (sz < 0 ==> range_of(total, off, size).1 - range_of(total, off, size).0 + 1 <= -sz),
            None => true,
        },
        size is None && off is None ==> range_of(total, off, size) == (1int, usize::MAX as int),
{
}

// ---------------------------------------------------------------------------
// Op names and counts
// ---------------------------------------------------------------------------

/// Normalising an op name twice is normalising it once.
pub proof fn law_op_normalization_idempotent(v: Seq<char>)
    ensures
        normalized_op(normalized_op(v)) == normalized_op(v),
{
    reveal_strlit("replace");
    reveal_strlit("REPLACE");
    reveal_strlit("insert_after");
    reveal_strlit("INSERT_AFTER");
    reveal_strlit("delete");
    reveal_strlit("DELETE");
}

/// Non-overlapping occurrences of a non-empty needle fit in the text.
pub proof fn law_occurrences_fit(h: Seq<char>, n: Seq<char>)
    requires
        n.len() > 0,
    ensures
        count_matches(h, n) * n.len() <= h.len(),
    decreases h.len(),
{
    if h.len() < n.len() {
        assert(count_matches(h, n) == 0);
        assert(0 * n.len() == 0);
    } else if h.take(n.len() as int) == n {
        let t = h.skip(n.len() as int);
        law_occurrences_fit(t, n);
        let c = count_matches(t, n);
        assert(count_matches(h, n) == 1 + c);
        assert(t.len() == h.len() - n.len());
        assert((1 + c) * n.len() == n.len() + c * n.len()) by (nonlinear_arith);
    } else {
        let t = h.skip(1);
        law_occurrences_fit(t, n);
        assert(count_matches(h, n) == count_matches(t, n));
        assert(t.len() == h.len() - 1);
        assert(count_matches(t, n) * n.len() <= h.len());
    }
}

// ---------------------------------------------------------------------------
// Reading in chunks
// ---------------------------------------------------------------------------

/// A read cut short by the inline limit (and not by a single overlong
/// line) continues right after the last line it showed.
pub proof fn law_read_continues_after_last_line(ls: Seq<Seq<char>>, start: usize, end: usize, anchors: bool, limit: usize)
    requires
        start >= 1,
        chunk_outcome(ls, start, end, anchors, limit) is Ok,
        chunk_outcome(ls, start, end, anchors, limit)->Ok_0.truncated,
        !chunk_outcome(ls, start, end, anchors, limit)->Ok_0.next_line_too_large,
    ensures
        chunk_outcome(ls, start, end, anchors, limit)->Ok_0.next_start_line
            == Some(chunk_outcome(ls, start, end, anchors, limit)->Ok_0.displayed_end_line + 1),
{
    let r = window_lines(ls, start, end, anchors);
    lemma_fit_count_bounds(r, limit as int, 0, 0);
}

proof fn lemma_join_push_bytes(s: Seq<Seq<char>>, x: Seq<char>)
    ensures
        byte_len(join(s.push(x), seq!['\n'])) == byte_len(join(s, seq!['\n'])) + (if s.len() > 0 { 1int } else { 0int }) + byte_len(x),
{
    let t = s.push(x);
    assert(t.drop_last() =~= s);
    assert(t.last() == x);
    if s.len() == 0 {
        assert(join(s, seq!['\n']) =~= Seq::<char>::empty());
        assert(join(t, seq!['\n']) == t[0]);
    } else {
        assert(join(t, seq!['\n']) == join(s, seq!['\n']) + seq!['\n'] + x);
        lemma_byte_len_append(join(s, seq!['\n']) + seq!['\n'], x);
        lemma_byte_len_append(join(s, seq!['\n']), seq!['\n']);
        assert(seq!['\n'].drop_last() =~= Seq::<char>::empty());
        assert(byte_len(seq!['\n']) == byte_len(Seq::<char>::empty()) + crate::read::utf8_width('\n'));
        assert(byte_len(seq!['\n']) == 1);
    }
}

proof fn lemma_fit_count_fits(r: Seq<Seq<char>>, limit: int, k: int, used: int)
    requires
        0 <= k <= r.len(),
        used == byte_len(join(r.take(k), seq!['\n'])),
        used <= limit,
    ensures
        byte_len(join(r.take(fit_count(r, limit, k, used)), seq!['\n'])) <= limit,
    decreases r.len() - k,
{
    if k < r.len() {
        let cand = used + (if k > 0 { 1int } else { 0int }) + byte_len(r[k]);
        if cand <= limit {
            assert(r.take(k + 1) =~= r.take(k).push(r[k]));
            lemma_join_push_bytes(r.take(k), r[k]);
            lemma_fit_count_fits(r, limit, k + 1, cand);
        }
    }
}

/// Unless a single line is wider than the limit (and is then shown cut),
/// the content a read shows stays within the byte limit.
pub proof fn law_read_content_fits_limit(ls: Seq<Seq<char>>, start: usize, end: usize, anchors: bool, limit: usize)
    requires
        chunk_outcome(ls, start, end, anchors, limit) is Ok,
        !chunk_outcome(ls, start, end, anchors, limit)->Ok_0.next_line_too_large,
    ensures
        byte_len(chunk_outcome(ls, start, end, anchors, limit)->Ok_0.content) <= limit,
{
    let r = window_lines(ls, start, end, anchors);
    lemma_fit_count_bounds(r, limit as int, 0, 0);
    assert(r.take(0) =~= Seq::<Seq<char>>::empty());
    assert(join(Seq::<Seq<char>>::empty(), seq!['\n']) =~= Seq::<char>::empty());
    lemma_fit_count_fits(r, limit as int, 0, 0);
    let k = fit_count(r, limit as int, 0, 0);
    if k >= r.len() {
        assert(r.take(k) =~= r);
    }
    if ls.len() == 0 {
        assert(byte_len(Seq::<char>::empty()) == 0);
    }
}

// ---------------------------------------------------------------------------
// Line windows of a search hit
// ---------------------------------------------------------------------------

/// The window shown of a long matching line is exactly `max` characters
/// wide, lies inside the line, and holds the whole match when the match
/// is no wider than the window.
pub proof fn law_match_window_holds_the_match(total: int, max: int, ms: int, ml: int)
    requires
        0 < max <= total,
        0 <= ms,
        0 <= ml,
        ms + ml <= total,
    ensures
        ({
            let (ws, we) = match_window(total, max, Some((ms, ml)));
            &&& 0 <= ws <= ms
            &&& we <= total
            &&& we - ws == max
            &&& ml <= max ==> ms + ml <= we
        }),
{
}

// ---------------------------------------------------------------------------
// Applying edits
// ---------------------------------------------------------------------------

/// The net number of lines the edits add (negative when they remove).
pub open spec fn total_delta(es: Seq<LineEdit>) -> int
    decreases es.len(),
{
    if es.len() == 0 {
        0
    } else {
        replacement_count(es[0]) - orig_count(es[0]) + total_delta(es.drop_first())
    }
}

proof fn lemma_splice_len(lines: Seq<Seq<char>>, es: Seq<LineEdit>, pos: int)
    requires
        0 <= pos <= lines.len(),
        forall|k: int| 0 <= k < es.len() ==> 0 <= region_start(#[trigger] es[k]) <= region_end(es[k]) <= lines.len(),
        forall|k: int| 0 <= k < es.len() - 1 ==> region_end(#[trigger] es[k]) <= region_start(es[k + 1]),
        es.len() > 0 ==> pos <= region_start(es[0]),
    ensures
        splice_from(lines, es, pos).len() == lines.len() - pos + total_delta(es),
    decreases es.len(),
{
    if es.len() > 0 {
        let rest = es.drop_first();
        assert forall|k: int| 0 <= k < rest.len() implies 0 <= region_start(#[trigger] rest[k]) <= region_end(rest[k]) <= lines.len() by {
            assert(rest[k] == es[k + 1]);
        }
        assert forall|k: int| 0 <= k < rest.len() - 1 implies region_end(#[trigger] rest[k]) <= region_start(rest[k + 1]) by {
            assert(rest[k] == es[k + 1]);
            assert(rest[k + 1] == es[k + 2]);
        }
        if rest.len() > 0 {
            assert(rest[0] == es[1]);
        }
        lemma_splice_len(lines, rest, region_end(es[0]));
        assert(replacement(es[0]).len() == replacement_count(es[0]));
    }
}

/// Applying a batch of edits changes the number of lines by what the edits
/// write less what they replace.
pub proof fn law_edit_line_count(ls: Seq<Seq<char>>, es: Seq<LineEdit>, perm: Seq<usize>)
    requires
        arranged(es, perm),
        applicable(es, ls.len()),
    ensures
        applied(ls, es, perm).len() == ls.len() + total_delta(in_order(es, perm)),
{
    crate::edit::lemma_regions_ordered(es, perm, ls.len());
    let ord = in_order(es, perm);
    assert forall|k: int| 0 <= k < ord.len() implies 0 <= region_start(#[trigger] ord[k]) <= region_end(ord[k]) <= ls.len() by {
    }
    lemma_splice_len(ls, ord, 0);
}

// ---------------------------------------------------------------------------
// Brace expansion
// ---------------------------------------------------------------------------

proof fn lemma_expand_run_bounds(pending: Seq<Seq<char>>, expanded: Seq<Seq<char>>)
    requires
        expanded.len() + pending.len() <= 64,
        expanded.no_duplicates(),
    ensures
        expand_run(pending, expanded) matches Ok(v) ==> v.len() <= 64 && v.no_duplicates(),
    decreases weight(pending),
{
    if pending.len() > 0 {
        let cur = pending.last();
        let rest = pending.drop_last();
        match next_expansion(cur) {
            Err(()) => {},
            Ok(None) => {
                assert(weight(pending) == weight(rest) + p64(cur.len()));
                lemma_p64_mono(0, cur.len());
                let e2 = if expanded.contains(cur) { expanded } else { expanded.push(cur) };
                if !expanded.contains(cur) {
                    assert forall|i: int, j: int| 0 <= i < j < e2.len() implies e2[i] != e2[j] by {
                        if j == e2.len() - 1 {
                            assert(e2[i] == expanded[i]);
                        } else {
                            assert(e2[i] == expanded[i]);
                            assert(e2[j] == expanded[j]);
                        }
                    }
                }
                lemma_expand_run_bounds(rest, e2);
            },
            Ok(Some(parts)) => {
                if expanded.len() + rest.len() + parts.len() <= 64 {
                    lemma_next_expansion_shorter(cur);
                    lemma_weight_drops(pending, parts);
                    lemma_expand_run_bounds(rest + parts, expanded);
                }
            },
        }
    }
}

/// Brace expansion yields at most 64 globs, none twice.
pub proof fn law_brace_expansion_is_bounded(p: Seq<char>)
    ensures
        brace_expansion(p) matches Ok(v) ==> v.len() <= 64 && v.no_duplicates(),
{
    lemma_expand_run_bounds(seq![p], Seq::empty());
}

// ---------------------------------------------------------------------------
// Paths
// ---------------------------------------------------------------------------

proof fn lemma_trim_start_shape(s: Seq<char>)
    ensures
        trim_start(s).len() == 0 || !is_ws(trim_start(s)[0]),
        trim_start(s) == s.skip(s.len() - trim_start(s).len()),
        trim_start(s).len() <= s.len(),
    decreases s.len(),
{
    if s.len() > 0 && is_ws(s[0]) {
        lemma_trim_start_shape(s.skip(1));
        assert(s.skip(1).skip(s.skip(1).len() - trim_start(s.skip(1)).len()) =~= s.skip(s.len() - trim_start(s).len()));
    } else {
        assert(s.skip(0) =~= s);
    }
}

proof fn lemma_trim_end_shape(s: Seq<char>)
    ensures
        trim_end(s).len() == 0 || !is_ws(trim_end(s).last()),
        trim_end(s) == s.take(trim_end(s).len() as int),
        trim_end(s).len() <= s.len(),
    decreases s.len(),
{
    if s.len() > 0 && is_ws(s.last()) {
        lemma_trim_end_shape(s.drop_last());
        assert(s.drop_last().take(trim_end(s.drop_last()).len() as int) =~= s.take(trim_end(s).len() as int));
    } else {
        assert(s.take(s.len() as int) =~= s);
    }
}

/// Trimming twice is trimming once.
pub proof fn law_trim_idempotent(s: Seq<char>)
    ensures
        trim(trim(s)) == trim(s),
{
    let u = trim_start(s);
    let v = trim_end(u);
    lemma_trim_start_shape(s);
    lemma_trim_end_shape(u);
    if v.len() > 0 {
        assert(v[0] == u[0]);
        assert(trim_start(v) == v);
        lemma_trim_plain(v);
    } else {
        assert(trim_start(v) == v);
    }
}

/// A normalised path argument normalises to itself.
pub proof fn law_path_normalization_idempotent(path: Option<Seq<char>>, default_path: Seq<char>, other_default: Seq<char>)
    requires
        normalized_path(path, default_path) is Ok,
    ensures
        normalized_path(Some(normalized_path(path, default_path)->Ok_0), other_default) == normalized_path(path, default_path),
{
    let p = match path {
        Some(p) => p,
        None => default_path,
    };
    law_trim_idempotent(p);
}

// ---------------------------------------------------------------------------
// Listings, searches and writes
// ---------------------------------------------------------------------------

/// Ordering a listing keeps every entry; when each entry is a directory,
/// a file or `other`, directories come first and entries are otherwise in
/// name order.
pub proof fn law_listing_order(items: Seq<ListingItem>)
    ensures
        sorted_listing(items).to_multiset() == items.to_multiset(),
        (forall|i: int| 0 <= i < items.len() ==> known_type(#[trigger] items[i])) ==> is_sorted_listing(
            sorted_listing(items),
        ),
{
    lemma_sorted_listing(items);
}

/// A search that shows anchors gives each matching line the anchor that a
/// read shows for it: the read's line is `{number}:{anchor}|{text}` with
/// the search result's number, anchor and text.
pub proof fn law_search_anchor_agrees_with_read(m: GrepLine, ls: Seq<Seq<char>>, k: int)
    requires
        0 <= k < ls.len(),
        is_grep_line(m, ls, k, true),
    ensures
        m.anchor matches Some(a) && hashline_at(ls, k) == dec(m.line as nat) + seq![':'] + a@ + seq!['|']
            + m.text@,
{
}

/// The numbered sibling names of a file are all different from it and
/// from each other, so `mode=create` never writes over the file it found
/// and tries a new name each time.
pub proof fn law_numbered_names_are_fresh(name: Seq<char>, n: nat, m: nat)
    requires
        n != m,
    ensures
        numbered_name(name, n) != name,
        numbered_name(name, n) != numbered_name(name, m),
{
    lemma_dec_digits(n);
    lemma_dec_digits(m);
    let a = numbered_name(name, n);
    let b = numbered_name(name, m);
    crate::write::lemma_last_index_of(name, '.');
    if name.len() == 0 {
        reveal_strlit("file-");
        assert(a.skip(5) =~= dec(n));
        assert(b.skip(5) =~= dec(m));
        if a == b {
            assert(dec(n) == dec(m));
        }
    } else {
        let (pre, post) = if name[0] == '.' && !has_char(name.drop_first(), '.') {
            (name, Seq::<char>::empty())
        } else {
            match crate::write::last_index_of(name, '.') {
                Some(d) => if d > 0 {
                    (name.take(d), seq!['.'] + name.skip(d + 1))
                } else {
                    (name, Seq::<char>::empty())
                },
                None => (name, Seq::<char>::empty()),
            }
        };
        assert(a =~= pre + seq!['-'] + dec(n) + post);
        assert(b =~= pre + seq!['-'] + dec(m) + post);
        assert(pre.len() + post.len() == name.len());
        assert(a.len() > name.len());
        if a == b {
            assert(dec(n).len() == dec(m).len());
            assert(a.subrange(pre.len() as int + 1, pre.len() as int + 1 + dec(n).len() as int) =~= dec(n));
            assert(b.subrange(pre.len() as int + 1, pre.len() as int + 1 + dec(m).len() as int) =~= dec(m));
        }
    }
}

/// Following a paging note continues exactly where the page ended: the
/// page at `offset` of size `limit`, then the page at `offset + limit`,
/// together make the page at `offset` of size `limit + more`.
pub proof fn law_pages_continue<T>(all: Seq<T>, offset: nat, limit: nat, more: nat)
    ensures
        page_of(all, offset as int, limit as int) + page_of(all, (offset + limit) as int, more as int) == page_of(
            all,
            offset as int,
            (limit + more) as int,
        ),
{
    let a = page_of(all, offset as int, limit as int);
    let b = page_of(all, (offset + limit) as int, more as int);
    let c = page_of(all, offset as int, (limit + more) as int);
    if offset >= all.len() {
        assert(a + b =~= c);
    } else if offset + limit >= all.len() {
        assert(b =~= Seq::<T>::empty());
        assert(a + b =~= c);
    } else {
        assert(a + b =~= c);
    }
}

/// Replacing a text by itself leaves the content as it was.
pub proof fn law_replacing_by_itself_changes_nothing(content: Seq<char>, old: Seq<char>)
    ensures
        replaced_first(content, old, old) == content,
{
    lemma_first_occ(content, old);
    let i = first_occ(content, old);
    if i >= 0 {
        assert(content.subrange(i, i + old.len()) == old);
        assert(content.take(i) + old + content.skip(i + old.len()) =~= content);
    }
}

/// When the old text occurs, the result is as long as the content with
/// the old text's length taken out and the new text's put in, and it
/// holds the new text where the old one first was.
pub proof fn law_replacement_splices(content: Seq<char>, old: Seq<char>, new: Seq<char>)
    requires
        first_occ(content, old) >= 0,
    ensures
        replaced_first(content, old, new).len() == content.len() - old.len() + new.len(),
        replaced_first(content, old, new).subrange(
            first_occ(content, old),
            first_occ(content, old) + new.len(),
        ) == new,
{
    lemma_first_occ(content, old);
    let i = first_occ(content, old);
    let r = replaced_first(content, old, new);
    assert(occurs_at(content, old, i));
    assert(r.subrange(i, i + new.len()) =~= new);
}

/// A replacement is undone by replacing the new text with the old one,
/// when the new text first occurs where it was put.
pub proof fn law_reverse_replacement_undoes(content: Seq<char>, old: Seq<char>, new: Seq<char>)
    requires
        first_occ(content, old) >= 0,
        first_occ(replaced_first(content, old, new), new) == first_occ(content, old),
    ensures
        replaced_first(replaced_first(content, old, new), new, old) == content,
{
    lemma_first_occ(content, old);
    let i = first_occ(content, old);
    let r = replaced_first(content, old, new);
    assert(occurs_at(content, old, i));
    assert(r.take(i) =~= content.take(i));
    assert(r.skip(i + new.len()) =~= content.skip(i + old.len()));
    assert(content.take(i) + old + content.skip(i + old.len()) =~= content);
}

/// The preview of a created file shows at most 100 lines; when the file
/// is within 51200 bytes, they are its first lines.
pub proof fn law_create_preview_shows_first_lines(c: Seq<char>)
    ensures
        create_shown_lines(c).len() <= 100,
        byte_len(c) <= 51200 ==> create_shown_lines(c) == lines_of(c).take(create_shown_lines(c).len() as int),
{
}

/// A listing of processes shows exactly the processes the status filter
/// admits, each once, newest first.
pub proof fn law_process_listing(filter: Seq<char>, ps: Seq<ProcessInfo>)
    ensures
        by_start_desc(admitted_of(filter, ps)).to_multiset() == admitted_of(filter, ps).to_multiset(),
        newest_first(by_start_desc(admitted_of(filter, ps))),
        forall|i: int| 0 <= i < admitted_of(filter, ps).len() ==> admitted(filter, #[trigger] admitted_of(filter, ps)[i])
            && ps.contains(admitted_of(filter, ps)[i]),
        forall|i: int| 0 <= i < ps.len() && admitted(filter, #[trigger] ps[i]) ==> admitted_of(filter, ps).contains(ps[i]),
{
    lemma_by_start_desc(admitted_of(filter, ps));
    lemma_admitted_of(filter, ps);
}

/// When every pattern of a request for several replacements occurs
/// exactly once in the text as the earlier replacements leave it, the
/// validated text is what making the replacements one after another
/// gives: validation and application agree.
pub proof fn law_validated_replacements_apply_in_order(content: Seq<char>, pairs: Seq<(Seq<char>, Seq<char>)>)
    requires
        chain_problems(content, pairs).len() == 0,
    ensures
        chain(content, pairs) == sequential(content, pairs),
    decreases pairs.len(),
{
    if pairs.len() > 0 {
        let prev = chain_problems(content, pairs.drop_last());
        if count_matches(chain(content, pairs.drop_last()), pairs.last().0) != 1 {
            assert(chain_problems(content, pairs).len() == prev.len() + 1);
        }
        law_validated_replacements_apply_in_order(content, pairs.drop_last());
    }
}

// ---------------------------------------------------------------------------
// Overlap of edits
// ---------------------------------------------------------------------------

/// Two edits, `a` before `b` in the order of edits, may not stand
/// together: both insert at the top, or `b` starts inside `a`.
pub open spec fn clash(es: Seq<LineEdit>, a: int, b: int) -> bool {
    both_insert_at_top(es, a, b) || ranges_overlap(es, a, b)
}

/// The number of edits below `n` that come strictly between `a` and `b`.
spec fn between_count(es: Seq<LineEdit>, a: int, b: int, n: int) -> nat
    decreases n,
{
    if n <= 0 {
        0
    } else {
        between_count(es, a, b, n - 1) + if before(es, a, n - 1) && before(es, n - 1, b) { 1nat } else { 0nat }
    }
}

proof fn lemma_between_none(es: Seq<LineEdit>, a: int, b: int, n: int)
    requires
        between_count(es, a, b, n) == 0,
    ensures
        forall|c: int| 0 <= c < n ==> !(before(es, a, c) && before(es, c, b)),
    decreases n,
{
    if n > 0 {
        lemma_between_none(es, a, b, n - 1);
    }
}

/// Edits between `a` and `c` (or between `c` and `b`) are between `a` and
/// `b`, and `c` itself is not: fewer of them.
proof fn lemma_between_shrinks(es: Seq<LineEdit>, a: int, b: int, c: int, n: int)
    requires
        before(es, a, c),
        before(es, c, b),
        0 <= c < n,
    ensures
        between_count(es, a, c, n) < between_count(es, a, b, n),
        between_count(es, c, b, n) < between_count(es, a, b, n),
    decreases n,
{
    if n - 1 > c {
        lemma_between_shrinks(es, a, b, c, n - 1);
    } else {
        lemma_between_le(es, a, b, c, n - 1);
    }
}

proof fn lemma_between_le(es: Seq<LineEdit>, a: int, b: int, c: int, n: int)
    requires
        before(es, a, c),
        before(es, c, b),
    ensures
        between_count(es, a, c, n) <= between_count(es, a, b, n),
        between_count(es, c, b, n) <= between_count(es, a, b, n),
    decreases n,
{
    if n > 0 {
        lemma_between_le(es, a, b, c, n - 1);
    }
}

proof fn lemma_no_clash_by_count(es: Seq<LineEdit>, a: int, b: int)
    requires
        forall|k: int| 0 <= k < es.len() ==> #[trigger] well_shaped(es[k]),
        no_bad_pair(es),
        is_index(es, a),
        is_index(es, b),
        before(es, a, b),
    ensures
        !clash(es, a, b),
    decreases between_count(es, a, b, es.len() as int),
{
    if between_count(es, a, b, es.len() as int) == 0 {
        lemma_between_none(es, a, b, es.len() as int);
        assert(adjacent(es, a, b));
        assert(!bad_pair(es, a, b));
    } else {
        assert(exists|c: int| 0 <= c < es.len() && before(es, a, c) && before(es, c, b)) by {
            if !(exists|c: int| 0 <= c < es.len() && before(es, a, c) && before(es, c, b)) {
                lemma_between_zero(es, a, b, es.len() as int);
            }
        }
        let c = choose|c: int| 0 <= c < es.len() && before(es, a, c) && before(es, c, b);
        lemma_between_shrinks(es, a, b, c, es.len() as int);
        lemma_no_clash_by_count(es, a, c);
        lemma_no_clash_by_count(es, c, b);
        assert(well_shaped(es[a]) && well_shaped(es[b]) && well_shaped(es[c]));
    }
}

proof fn lemma_between_zero(es: Seq<LineEdit>, a: int, b: int, n: int)
    requires
        forall|c: int| 0 <= c < n ==> !(before(es, a, c) && before(es, c, b)),
    ensures
        between_count(es, a, b, n) == 0,
    decreases n,
{
    if n > 0 {
        lemma_between_zero(es, a, b, n - 1);
    }
}

/// The overlap rule checks only consecutive edits (in the order of their
/// start lines), and that is the same as checking every pair: a batch of
/// well-shaped edits has no consecutive clash exactly when no edit clashes
/// with any later one.
pub proof fn law_overlap_rule_covers_every_pair(es: Seq<LineEdit>)
    requires
        forall|k: int| 0 <= k < es.len() ==> #[trigger] well_shaped(es[k]),
    ensures
        no_bad_pair(es) <==> forall|a: int, b: int|
            is_index(es, a) && is_index(es, b) && #[trigger] before(es, a, b) ==> !clash(es, a, b),
{
    if no_bad_pair(es) {
        assert forall|a: int, b: int| is_index(es, a) && is_index(es, b) && #[trigger] before(es, a, b) implies !clash(
            es,
            a,
            b,
        ) by {
            lemma_no_clash_by_count(es, a, b);
        }
    }
    if forall|a: int, b: int| is_index(es, a) && is_index(es, b) && #[trigger] before(es, a, b) ==> !clash(es, a, b) {
        assert forall|a: int, b: int| !#[trigger] bad_pair(es, a, b) by {
            if bad_pair(es, a, b) {
                assert(adjacent(es, a, b));
                assert(clash(es, a, b));
            }
        }
    }
}

} // verus!
