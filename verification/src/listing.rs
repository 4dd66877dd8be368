//! Directory listings: the Markdown table of entries, the pagination note
//! and the message around them.
use vstd::prelude::*;
use crate::text::{chars_of, chars_eq, dec, join, join_chars, push_dec, push_str, seqs_of, string_from_chars};
use crate::sizes::{format_human_size, human_size};

verus! {

/// One entry of a listing: its name, its type (`directory`, `file` or
/// `other`) and its size, each when known.
pub struct ListingItem {
    pub name: Option<String>,
    pub entry_type: Option<String>,
    pub size: Option<u64>,
}

/// Build a listing entry.
pub fn listing_item(name: String, entry_type: &str, size: Option<u64>) -> (r: ListingItem)
    ensures
        r.name matches Some(n) && n@ == name@,
        r.entry_type matches Some(t) && t@ == entry_type@,
        r.size == size,
{
    ListingItem { name: Some(name), entry_type: Some(string_from_chars(chars_of(entry_type).as_slice())), size }
}

pub open spec fn or_question(o: Option<String>) -> Seq<char> {
    match o {
        Some(s) => s@,
        None => "?"@,
    }
}

/// The icon column for an entry type.
pub open spec fn type_icon(t: Seq<char>) -> Seq<char> {
    if t == "directory"@ {
        "📁 dir"@
    } else if t == "file"@ {
        "📄 file"@
    } else {
        "❓ other"@
    }
}

/// `| {icon} | `{name}` | {size} |`.
pub open spec fn table_row(item: ListingItem) -> Seq<char> {
    let size = match item.size {
        Some(s) => human_size(s as nat),
        None => "-"@,
    };
    "| "@ + type_icon(or_question(item.entry_type)) + " | `"@ + or_question(item.name) + "` | "@ + size + " |"@
}

/// The table lines: header, rule, one row per entry.
pub open spec fn table_lines(items: Seq<ListingItem>) -> Seq<Seq<char>> {
    seq!["| Type | Name | Size |"@, "|---|---|---|"@] + Seq::new(items.len(), |i: int| table_row(items[i]))
}

fn push_or_question(out: &mut Vec<char>, o: &Option<String>)
    ensures
        final(out)@ == old(out)@ + or_question(*o),
{
    match o {
        Some(s) => push_str(out, s.as_str()),
        None => push_str(out, "?"),
    }
}

fn push_row(out: &mut Vec<char>, item: &ListingItem)
    ensures
        final(out)@ == old(out)@ + table_row(*item),
{
    let ghost start = out@;
    push_str(out, "| ");
    let t = match &item.entry_type {
        Some(s) => chars_of(s.as_str()),
        None => chars_of("?"),
    };
    assert(t@ == or_question(item.entry_type));
    if chars_eq(t.as_slice(), chars_of("directory").as_slice()) {
        push_str(out, "📁 dir");
    } else if chars_eq(t.as_slice(), chars_of("file").as_slice()) {
        push_str(out, "📄 file");
    } else {
        push_str(out, "❓ other");
    }
    push_str(out, " | `");
    push_or_question(out, &item.name);
    push_str(out, "` | ");
    match item.size {
        Some(s) => {
            let h = format_human_size(s);
            push_str(out, h.as_str());
        },
        None => push_str(out, "-"),
    }
    push_str(out, " |");
    assert(out@ =~= start + table_row(*item));
}

/// Build the Markdown table body (`| Type | Name | Size |` + rows).
pub fn format_listing_table(items: &[ListingItem]) -> (r: String)
    ensures
        r@ == join(table_lines(items@), seq!['\n']),
{
    let mut lines: Vec<Vec<char>> = Vec::new();
    lines.push(chars_of("| Type | Name | Size |"));
    lines.push(chars_of("|---|---|---|"));
    assert(seqs_of(lines@) =~= seq!["| Type | Name | Size |"@, "|---|---|---|"@]);
    let mut i: usize = 0;
    while i < items.len()
        invariant
            i <= items@.len(),
            seqs_of(lines@) == seq!["| Type | Name | Size |"@, "|---|---|---|"@] + Seq::new(i as nat, |k: int| table_row(items@[k])),
        decreases items@.len() - i,
    {
        let mut row: Vec<char> = Vec::new();
        push_row(&mut row, &items[i]);
        let ghost before = seqs_of(lines@);
        lines.push(row);
        assert(seqs_of(lines@) =~= before.push(table_row(items@[i as int])));
        assert(seqs_of(lines@) =~= seq!["| Type | Name | Size |"@, "|---|---|---|"@] + Seq::new((i + 1) as nat, |k: int| table_row(items@[k])));
        i += 1;
    }
    assert(seqs_of(lines@) =~= table_lines(items@));
    let nl = ['\n'];
    assert(nl@ =~= seq!['\n']);
    let j = join_chars(&lines, &nl);
    string_from_chars(j.as_slice())
}

/// The pagination note after a page of `page_len` entries starting at
/// `offset` out of `total`: where the next page starts when there is
/// more, the shown range when the page is not the first, nothing else.
pub open spec fn truncation_note(offset: nat, page_len: nat, total: nat, limit: nat) -> Seq<char> {
    if offset + page_len < total {
        "\n\n*(Showing "@ + dec(offset + 1) + " to "@ + dec(offset + page_len) + " of "@ + dec(total)
            + " items. Call workspace__listDirectory with offset: "@ + dec(offset + limit) + " to see more)*"@
    } else if offset > 0 {
        "\n\n*(Showing "@ + dec(offset + 1) + " to "@ + dec(offset + page_len) + " of "@ + dec(total) + " items)*"@
    } else {
        Seq::empty()
    }
}

/// The note can be computed without overflow.
pub open spec fn note_computable(offset: usize, page_len: usize, total: usize, limit: usize) -> bool {
    &&& offset + page_len <= usize::MAX
    &&& offset < usize::MAX
    &&& (offset + page_len < total ==> offset + limit <= usize::MAX)
}

/// Pagination note appended after the table when offset/limit truncates results.
pub fn listing_truncation_note(offset: usize, page_len: usize, total_items: usize, limit: usize) -> (r: String)
    requires
        note_computable(offset, page_len, total_items, limit),
    ensures
        r@ == truncation_note(offset as nat, page_len as nat, total_items as nat, limit as nat),
{
    let mut m: Vec<char> = Vec::new();
    if offset + page_len < total_items {
        push_str(&mut m, "\n\n*(Showing ");
        push_dec(&mut m, (offset + 1) as u64);
        push_str(&mut m, " to ");
        push_dec(&mut m, (offset + page_len) as u64);
        push_str(&mut m, " of ");
        push_dec(&mut m, total_items as u64);
        push_str(&mut m, " items. Call workspace__listDirectory with offset: ");
        push_dec(&mut m, (offset + limit) as u64);
        push_str(&mut m, " to see more)*");
    } else if offset > 0 {
        push_str(&mut m, "\n\n*(Showing ");
        push_dec(&mut m, (offset + 1) as u64);
        push_str(&mut m, " to ");
        push_dec(&mut m, (offset + page_len) as u64);
        push_str(&mut m, " of ");
        push_dec(&mut m, total_items as u64);
        push_str(&mut m, " items)*");
    }
    assert(m@ =~= truncation_note(offset as nat, page_len as nat, total_items as nat, limit as nat));
    string_from_chars(m.as_slice())
}

/// The message of a directory listing.
pub open spec fn listing_message(path: Seq<char>, items: Seq<ListingItem>, total: nat, offset: nat, limit: nat, suffix: Option<Seq<char>>) -> Seq<char> {
    if total == 0 {
        "Directory listing for '"@ + path + "':\n\n(This directory is empty)\n\nThis is a valid empty directory."@
    } else {
        let header = match suffix {
            Some(s) => "Directory listing for '"@ + path + "' "@ + s + seq![':'],
            None => "Directory listing for '"@ + path + "':"@,
        };
        header + "\n\n"@ + join(table_lines(items), seq!['\n']) + truncation_note(offset, items.len(), total, limit)
    }
}

/// Build the human-readable success message for a directory listing.
pub fn build_listing_message(path_str: &str, paginated_items: &[ListingItem], total_items: usize, offset: usize, limit: usize, header_suffix: Option<&str>) -> (r: String)
    requires
        note_computable(offset, paginated_items@.len() as usize, total_items, limit),
    ensures
        r@ == listing_message(path_str@, paginated_items@, total_items as nat, offset as nat, limit as nat, crate::utils::opt_str_view(header_suffix)),
{
    let mut m: Vec<char> = Vec::new();
    if total_items == 0 {
        push_str(&mut m, "Directory listing for '");
        push_str(&mut m, path_str);
        push_str(&mut m, "':\n\n(This directory is empty)\n\nThis is a valid empty directory.");
        assert(m@ =~= listing_message(path_str@, paginated_items@, total_items as nat, offset as nat, limit as nat, crate::utils::opt_str_view(header_suffix)));
        return string_from_chars(m.as_slice());
    }
    let table = format_listing_table(paginated_items);
    let note = listing_truncation_note(offset, paginated_items.len(), total_items, limit);
    push_str(&mut m, "Directory listing for '");
    push_str(&mut m, path_str);
    match header_suffix {
        Some(s) => {
            push_str(&mut m, "' ");
            push_str(&mut m, s);
            m.push(':');
        },
        None => push_str(&mut m, "':"),
    }
    push_str(&mut m, "\n\n");
    push_str(&mut m, table.as_str());
    push_str(&mut m, note.as_str());
    assert(m@ =~= listing_message(path_str@, paginated_items@, total_items as nat, offset as nat, limit as nat, crate::utils::opt_str_view(header_suffix)));
    string_from_chars(m.as_slice())
}

// ---------------------------------------------------------------------------
// Ordering the entries
// ---------------------------------------------------------------------------

/// The type of an entry, empty when unknown.
pub open spec fn item_type(i: ListingItem) -> Seq<char> {
    match i.entry_type {
        Some(t) => t@,
        None => Seq::<char>::empty(),
    }
}

/// The name of an entry, empty when unknown.
pub open spec fn item_name(i: ListingItem) -> Seq<char> {
    match i.name {
        Some(n) => n@,
        None => Seq::<char>::empty(),
    }
}

/// `a` is not after `b` in the order of code points (the order of
/// `str::cmp`).
pub open spec fn chars_le(a: Seq<char>, b: Seq<char>) -> bool
    decreases a.len(),
{
    if a.len() == 0 {
        true
    } else if b.len() == 0 {
        false
    } else if a[0] != b[0] {
        (a[0] as u32) < (b[0] as u32)
    } else {
        chars_le(a.drop_first(), b.drop_first())
    }
}

/// `a` sorts no later than `b`: a directory comes before a file or an
/// `other` entry, and otherwise names are compared.
pub open spec fn sorts_no_later(a: ListingItem, b: ListingItem) -> bool {
    let at = item_type(a);
    let bt = item_type(b);
    if at == "directory"@ && (bt == "file"@ || bt == "other"@) {
        true
    } else if (at == "file"@ || at == "other"@) && bt == "directory"@ {
        false
    } else {
        chars_le(item_name(a), item_name(b))
    }
}

/// `x` placed into `s` after every entry from the end that sorts no
/// later than it.
pub open spec fn insert_sorted(s: Seq<ListingItem>, x: ListingItem) -> Seq<ListingItem>
    decreases s.len(),
{
    if s.len() == 0 {
        seq![x]
    } else if sorts_no_later(s.last(), x) {
        s.push(x)
    } else {
        insert_sorted(s.drop_last(), x).push(s.last())
    }
}

/// The entries in the order of a stable sort: each entry inserted, in
/// turn, behind those that sort no later than it.
pub open spec fn sorted_listing(items: Seq<ListingItem>) -> Seq<ListingItem>
    decreases items.len(),
{
    if items.len() == 0 {
        Seq::empty()
    } else {
        insert_sorted(sorted_listing(items.drop_last()), items.last())
    }
}

pub fn chars_le_exec(a: &[char], b: &[char]) -> (r: bool)
    ensures
        r == chars_le(a@, b@),
{
    let mut i: usize = 0;
    assert(a@.skip(0) =~= a@);
    assert(b@.skip(0) =~= b@);
    while i < a.len() && i < b.len()
        invariant
            i <= a.len(),
            i <= b.len(),
            chars_le(a@, b@) == chars_le(a@.skip(i as int), b@.skip(i as int)),
        decreases a.len() - i,
    {
        if a[i] != b[i] {
            return (a[i] as u32) < (b[i] as u32);
        }
        proof {
            assert(a@.skip(i as int).drop_first() =~= a@.skip(i + 1));
            assert(b@.skip(i as int).drop_first() =~= b@.skip(i + 1));
        }
        i += 1;
    }
    i == a.len()
}

fn opt_chars(o: &Option<String>) -> (r: Vec<char>)
    ensures
        r@ == (match *o {
            Some(s) => s@,
            None => Seq::<char>::empty(),
        }),
{
    match o {
        Some(s) => chars_of(s.as_str()),
        None => Vec::new(),
    }
}

fn is_one_of(t: &[char], a: &str, b: &str) -> (r: bool)
    ensures
        r == (t@ == a@ || t@ == b@),
{
    chars_eq(t, chars_of(a).as_slice()) || chars_eq(t, chars_of(b).as_slice())
}

fn sorts_no_later_exec(a: &ListingItem, b: &ListingItem) -> (r: bool)
    ensures
        r == sorts_no_later(*a, *b),
{
    let at = opt_chars(&a.entry_type);
    let bt = opt_chars(&b.entry_type);
    let a_dir = chars_eq(at.as_slice(), chars_of("directory").as_slice());
    let b_dir = chars_eq(bt.as_slice(), chars_of("directory").as_slice());
    if a_dir && is_one_of(bt.as_slice(), "file", "other") {
        true
    } else if is_one_of(at.as_slice(), "file", "other") && b_dir {
        false
    } else {
        let an = opt_chars(&a.name);
        let bn = opt_chars(&b.name);
        chars_le_exec(an.as_slice(), bn.as_slice())
    }
}

proof fn lemma_insert_sorted_at(s: Seq<ListingItem>, x: ListingItem, p: int)
    requires
        0 <= p <= s.len(),
        p == 0 || sorts_no_later(s[p - 1], x),
        forall|q: int| p <= q < s.len() ==> !sorts_no_later(#[trigger] s[q], x),
    ensures
        insert_sorted(s, x) == s.insert(p, x),
    decreases s.len(),
{
    if s.len() == 0 {
        assert(s.insert(p, x) =~= seq![x]);
    } else if p == s.len() {
        assert(s.insert(p, x) =~= s.push(x));
    } else {
        assert(!sorts_no_later(s[s.len() - 1], x));
        let t = s.drop_last();
        assert forall|q: int| p <= q < t.len() implies !sorts_no_later(#[trigger] t[q], x) by {
            assert(t[q] == s[q]);
        }
        lemma_insert_sorted_at(t, x, p);
        assert(t.insert(p, x).push(s.last()) =~= s.insert(p, x));
    }
}

/// Orders the entries of a listing: directories before files and other
/// entries, then by name; entries that compare equal keep their order.
pub fn sort_listing_items(items: &mut Vec<ListingItem>)
    ensures
        final(items)@ == sorted_listing(old(items)@),
{
    let mut src: Vec<ListingItem> = Vec::new();
    std::mem::swap(&mut src, items);
    let ghost orig = src@;
    let mut out: Vec<ListingItem> = Vec::new();
    let ghost mut k: int = 0;
    proof {
        assert(orig.skip(0) =~= orig);
        assert(orig.take(0) =~= Seq::<ListingItem>::empty());
    }
    while src.len() > 0
        invariant
            0 <= k <= orig.len(),
            src@ == orig.skip(k),
            out@ == sorted_listing(orig.take(k)),
        decreases src.len(),
    {
        let x = src.remove(0);
        let mut p = out.len();
        loop
            invariant
                p <= out.len(),
                forall|q: int| p <= q < out.len() ==> !sorts_no_later(#[trigger] out@[q], x),
            ensures
                p <= out.len(),
                forall|q: int| p <= q < out.len() ==> !sorts_no_later(#[trigger] out@[q], x),
                p == 0 || sorts_no_later(out@[p - 1], x),
            decreases p,
        {
            if p == 0 {
                break;
            }
            if sorts_no_later_exec(&out[p - 1], &x) {
                break;
            }
            p -= 1;
        }
        proof {
            lemma_insert_sorted_at(out@, x, p as int);
            assert(orig.take(k + 1).drop_last() =~= orig.take(k));
            assert(orig.skip(k).drop_first() =~= orig.skip(k + 1));
        }
        out.insert(p, x);
        proof {
            k = k + 1;
        }
    }
    proof {
        assert(orig.take(k) =~= orig);
    }
    *items = out;
}

/// The entry is a directory, a file or `other`.
pub open spec fn known_type(i: ListingItem) -> bool {
    item_type(i) == "directory"@ || item_type(i) == "file"@ || item_type(i) == "other"@
}

/// Every entry sorts no later than each entry after it.
pub open spec fn is_sorted_listing(s: Seq<ListingItem>) -> bool {
    forall|i: int, j: int| 0 <= i < j < s.len() ==> sorts_no_later(#[trigger] s[i], #[trigger] s[j])
}

pub proof fn lemma_chars_le_total(a: Seq<char>, b: Seq<char>)
    ensures
        chars_le(a, b) || chars_le(b, a),
    decreases a.len(),
{
    if a.len() > 0 && b.len() > 0 {
        if a[0] == b[0] {
            lemma_chars_le_total(a.drop_first(), b.drop_first());
        } else {
            vstd::utf8::char_u32_cast(a[0], a[0] as u32);
            vstd::utf8::char_u32_cast(b[0], b[0] as u32);
        }
    }
}

pub proof fn lemma_chars_le_trans(a: Seq<char>, b: Seq<char>, c: Seq<char>)
    requires
        chars_le(a, b),
        chars_le(b, c),
    ensures
        chars_le(a, c),
    decreases a.len(),
{
    if a.len() > 0 && b.len() > 0 && c.len() > 0 && a[0] == b[0] && b[0] == c[0] {
        lemma_chars_le_trans(a.drop_first(), b.drop_first(), c.drop_first());
    }
}

proof fn lemma_sorts_total(a: ListingItem, b: ListingItem)
    requires
        known_type(a),
        known_type(b),
    ensures
        sorts_no_later(a, b) || sorts_no_later(b, a),
{
    lemma_chars_le_total(item_name(a), item_name(b));
}

proof fn lemma_sorts_trans(a: ListingItem, b: ListingItem, c: ListingItem)
    requires
        known_type(a),
        known_type(b),
        known_type(c),
        sorts_no_later(a, b),
        sorts_no_later(b, c),
    ensures
        sorts_no_later(a, c),
{
    if chars_le(item_name(a), item_name(b)) && chars_le(item_name(b), item_name(c)) {
        lemma_chars_le_trans(item_name(a), item_name(b), item_name(c));
    }
}

proof fn lemma_insert_sorted_keeps(s: Seq<ListingItem>, x: ListingItem)
    ensures
        insert_sorted(s, x).to_multiset() == s.to_multiset().insert(x),
        insert_sorted(s, x).len() == s.len() + 1,
        forall|y: ListingItem| #[trigger] insert_sorted(s, x).contains(y) ==> y == x || s.contains(y),
    decreases s.len(),
{
    broadcast use vstd::seq_lib::to_multiset_build, vstd::multiset::group_multiset_axioms;

    if s.len() == 0 {
        assert(Seq::<ListingItem>::empty().push(x) =~= seq![x]);
        assert(s =~= Seq::<ListingItem>::empty());
        assert forall|y: ListingItem| #[trigger] insert_sorted(s, x).contains(y) implies y == x || s.contains(y) by {
            let w = choose|w: int| 0 <= w < insert_sorted(s, x).len() && insert_sorted(s, x)[w] == y;
        }
    } else if sorts_no_later(s.last(), x) {
        assert forall|y: ListingItem| #[trigger] insert_sorted(s, x).contains(y) implies y == x || s.contains(y) by {
            let w = choose|w: int| 0 <= w < insert_sorted(s, x).len() && insert_sorted(s, x)[w] == y;
            if w < s.len() {
                assert(s[w] == y);
            }
        }
    } else {
        let t = s.drop_last();
        lemma_insert_sorted_keeps(t, x);
        assert(t.push(s.last()) =~= s);
        assert(insert_sorted(s, x).to_multiset() =~= s.to_multiset().insert(x));
        assert forall|y: ListingItem| #[trigger] insert_sorted(s, x).contains(y) implies y == x || s.contains(y) by {
            let r = insert_sorted(t, x);
            let w = choose|w: int| 0 <= w < insert_sorted(s, x).len() && insert_sorted(s, x)[w] == y;
            if w < r.len() {
                assert(r[w] == y);
                assert(r.contains(y));
                if y != x {
                    let v = choose|v: int| 0 <= v < t.len() && t[v] == y;
                    assert(s[v] == y);
                }
            } else {
                assert(y == s.last());
                assert(s[s.len() - 1] == y);
            }
        }
    }
}

proof fn lemma_insert_sorted_sorted(s: Seq<ListingItem>, x: ListingItem)
    requires
        is_sorted_listing(s),
        forall|i: int| 0 <= i < s.len() ==> known_type(#[trigger] s[i]),
        known_type(x),
    ensures
        is_sorted_listing(insert_sorted(s, x)),
    decreases s.len(),
{
    if s.len() == 0 {
    } else if sorts_no_later(s.last(), x) {
        let r = s.push(x);
        assert forall|i: int, j: int| 0 <= i < j < r.len() implies sorts_no_later(#[trigger] r[i], #[trigger] r[j]) by {
            if j == s.len() && i < s.len() - 1 {
                lemma_sorts_trans(s[i], s.last(), x);
            }
        }
    } else {
        let t = s.drop_last();
        assert(is_sorted_listing(t)) by {
            assert forall|i: int, j: int| 0 <= i < j < t.len() implies sorts_no_later(#[trigger] t[i], #[trigger] t[j]) by {
                assert(t[i] == s[i] && t[j] == s[j]);
            }
        }
        lemma_insert_sorted_sorted(t, x);
        lemma_insert_sorted_keeps(t, x);
        lemma_sorts_total(s.last(), x);
        let r0 = insert_sorted(t, x);
        let r = r0.push(s.last());
        assert forall|i: int, j: int| 0 <= i < j < r.len() implies sorts_no_later(#[trigger] r[i], #[trigger] r[j]) by {
            if j == r0.len() {
                let y = r0[i];
                assert(r0.contains(y));
                if y != x {
                    let v = choose|v: int| 0 <= v < t.len() && t[v] == y;
                    assert(s[v] == y);
                }
            } else {
                assert(r[i] == r0[i] && r[j] == r0[j]);
            }
        }
    }
}

/// Sorting keeps every entry, and when every entry is a directory, a file
/// or `other`, the result is in order.
pub proof fn lemma_sorted_listing(items: Seq<ListingItem>)
    ensures
        sorted_listing(items).to_multiset() == items.to_multiset(),
        sorted_listing(items).len() == items.len(),
        (forall|i: int| 0 <= i < items.len() ==> known_type(#[trigger] items[i])) ==> is_sorted_listing(
            sorted_listing(items),
        ),
    decreases items.len(),
{
    broadcast use vstd::seq_lib::to_multiset_build, vstd::multiset::group_multiset_axioms;

    if items.len() == 0 {
        assert(items =~= Seq::<ListingItem>::empty());
        assert(sorted_listing(items) =~= Seq::<ListingItem>::empty());
        assert(sorted_listing(items) == items);
    } else {
        let t = items.drop_last();
        lemma_sorted_listing(t);
        lemma_insert_sorted_keeps(sorted_listing(t), items.last());
        assert(t.push(items.last()) =~= items);
        if forall|i: int| 0 <= i < items.len() ==> known_type(#[trigger] items[i]) {
            assert forall|i: int| 0 <= i < t.len() implies known_type(#[trigger] t[i]) by {
                assert(t[i] == items[i]);
            }
            let st = sorted_listing(t);
            assert forall|i: int| 0 <= i < st.len() implies known_type(#[trigger] st[i]) by {
                let y = st[i];
                assert(st.to_multiset().count(y) > 0) by {
                    assert(st.contains(y));
                    vstd::seq_lib::to_multiset_contains(st, y);
                }
                assert(t.to_multiset().count(y) > 0);
                vstd::seq_lib::to_multiset_contains(t, y);
                let v = choose|v: int| 0 <= v < t.len() && t[v] == y;
            }
            assert(known_type(items.last()) ) by {
                assert(items[items.len() - 1] == items.last());
            }
            lemma_insert_sorted_sorted(st, items.last());
        }
    }
}

// ---------------------------------------------------------------------------
// The page asked for, and the next steps
// ---------------------------------------------------------------------------

/// The page size (default 100, kept within 1..=500) and offset (default
/// 0, at most 100000) of a listing, from the arguments as unsigned
/// integers (`None` when absent or not one).
pub fn listing_page_args(limit: Option<u64>, offset: Option<u64>) -> (r: (usize, usize))
    ensures
        r.0 == (match limit {
            None => 100,
            Some(l) => if l < 1 { 1 } else if l > 500 { 500 } else { l as int },
        }),
        r.1 == (match offset {
            None => 0,
            Some(o) => if o > 100000 { 100000 } else { o as int },
        }),
{
    let l: u64 = match limit {
        Some(l) => l,
        None => 100,
    };
    let lim: usize = if l < 1 { 1 } else if l > 500 { 500 } else { l as usize };
    let o: u64 = match offset {
        Some(o) => o,
        None => 0,
    };
    let off: usize = if o > 100000 { 100000 } else { o as usize };
    (lim, off)
}

/// The next steps under a listing of `path`: how to create a file in an
/// empty directory, or how to go on from a listed one.
pub open spec fn listing_steps(path: Seq<char>, empty: bool) -> Seq<Seq<char>> {
    if empty {
        seq!["Use writeFile with {\"path\": \""@ + path + "/filename.txt\", \"content\": \"...\"} to create a file"@]
    } else {
        seq![
            "Use readFile('"@ + path + "/filename') to read a file"@,
            "Use listDirectory('"@ + path + "/subdir') to explore subdirectories"@,
            "Use search to search for content in files"@,
        ]
    }
}

pub fn listing_next_steps(path: &str, empty: bool) -> (r: Vec<String>)
    ensures
        crate::edit::string_views(r@) == listing_steps(path@, empty),
{
    let mut r: Vec<String> = Vec::new();
    if empty {
        let mut a: Vec<char> = Vec::new();
        push_str(&mut a, "Use writeFile with {\"path\": \"");
        push_str(&mut a, path);
        push_str(&mut a, "/filename.txt\", \"content\": \"...\"} to create a file");
        r.push(string_from_chars(a.as_slice()));
    } else {
        let mut a: Vec<char> = Vec::new();
        push_str(&mut a, "Use readFile('");
        push_str(&mut a, path);
        push_str(&mut a, "/filename') to read a file");
        let mut b: Vec<char> = Vec::new();
        push_str(&mut b, "Use listDirectory('");
        push_str(&mut b, path);
        push_str(&mut b, "/subdir') to explore subdirectories");
        r.push(string_from_chars(a.as_slice()));
        r.push(string_from_chars(b.as_slice()));
        r.push("Use search to search for content in files".to_string());
    }
    assert(crate::edit::string_views(r@) =~= listing_steps(path@, empty));
    r
}

} // verus!
