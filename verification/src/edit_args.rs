//! Reading one edit of an `editFiles` request: `N:anchor` line references,
//! op names, and the rules that turn the fields of an edit into a
//! `LineEdit` or name what is wrong with them.
use vstd::prelude::*;
use crate::text::{chars_of, contains_char, has_char, parse_usize, parse_usize_spec, push_chars, push_str, str_eq, string_from_chars, trim, trim_chars};
use crate::hashline::{all_hex, all_hex_exec};
use crate::edit::LineEdit;

verus! {

/// `'{field}'`.
pub open spec fn quoted(field: Seq<char>) -> Seq<char> {
    seq!['\''] + field + seq!['\'']
}

/// The index of the first `c` in `s`, or -1.
pub open spec fn first_index(s: Seq<char>, c: char) -> int
    decreases s.len(),
{
    if s.len() == 0 {
        -1
    } else if first_index(s.drop_last(), c) >= 0 {
        first_index(s.drop_last(), c)
    } else if s.last() == c {
        s.len() - 1
    } else {
        -1
    }
}

proof fn lemma_first_index_step(s: Seq<char>, c: char, i: int)
    requires
        0 <= i < s.len(),
        forall|k: int| 0 <= k < i ==> s[k] != c,
    ensures
        first_index(s.take(i), c) == -1,
        s[i] == c ==> first_index(s.take(i + 1), c) == i,
    decreases i,
{
    if i > 0 {
        lemma_first_index_step(s, c, i - 1);
        assert(s.take(i).drop_last() =~= s.take(i - 1));
    }
    assert(s.take(i + 1).drop_last() =~= s.take(i));
}

proof fn lemma_first_index_prefix(s: Seq<char>, c: char, n: int)
    requires
        0 <= n <= s.len(),
        first_index(s.take(n), c) >= 0,
    ensures
        first_index(s, c) == first_index(s.take(n), c),
    decreases s.len() - n,
{
    if n < s.len() {
        assert(s.take(n + 1).drop_last() =~= s.take(n));
        lemma_first_index_prefix(s, c, n + 1);
    } else {
        assert(s.take(n) =~= s);
    }
}

/// Index of the first `c` in `s`.
fn find_char(s: &[char], c: char) -> (r: Option<usize>)
    ensures
        r matches Some(k) ==> first_index(s@, c) == k && k < s@.len(),
        r is None ==> first_index(s@, c) == -1,
{
    let mut i: usize = 0;
    while i < s.len()
        invariant
            i <= s@.len(),
            forall|k: int| 0 <= k < i ==> s@[k] != c,
        decreases s.len() - i,
    {
        if s[i] == c {
            proof {
                lemma_first_index_step(s@, c, i as int);
                lemma_first_index_prefix(s@, c, i + 1);
            }
            return Some(i);
        }
        i += 1;
    }
    proof {
        if s@.len() > 0 {
            lemma_first_index_step(s@, c, s@.len() - 1);
            assert(s@.take(s@.len() as int) =~= s@);
            assert(s@.take(s@.len() - 1) =~= s@.drop_last());
        }
    }
    None
}

/// What `parse_line_ref` gives for a raw `N:anchor` value of the named field.
pub open spec fn line_ref_outcome(raw: Seq<char>, field: Seq<char>) -> Result<(usize, Option<Seq<char>>), Seq<char>> {
    let t = trim(raw);
    if t.len() == 0 {
        Err(quoted(field) + " must be a non-empty \"N:anchor\" string"@)
    } else if has_char(t, '|') {
        Err(quoted(field) + " must be only the \"N:anchor\" prefix from readFile output (e.g. \"42:a31f2c\"), not the trailing '|content'"@)
    } else if t =~= seq!['0'] {
        Ok((0usize, None))
    } else if first_index(t, ':') < 0 {
        Err(quoted(field) + " must use \"N:anchor\" format (e.g. \"42:a31f2c\"). Copy the prefix before '|' from workspace__readFile(showLineAnchors=true)."@)
    } else {
        let k = first_index(t, ':');
        let line_part = t.take(k);
        let anchor = trim(t.skip(k + 1));
        match parse_usize_spec(line_part) {
            None => Err(quoted(field) + " line number must be an integer (e.g. \"42:a31f2c\"), got '"@ + line_part + seq!['\'']),
            Some(line) => if anchor.len() == 0 {
                Err(quoted(field) + " is missing the anchor after ':' (e.g. \"42:a31f2c\")"@)
            } else if !(anchor.len() == 6 && all_hex(anchor)) {
                Err(quoted(field) + " anchor must be the 6-character hex code from readFile (e.g. \"42:a31f2c\"), got '"@ + anchor + seq!['\''])
            } else {
                Ok((line, Some(anchor)))
            },
        }
    }
}

fn push_quoted(out: &mut Vec<char>, field: &str)
    ensures
        final(out)@ == old(out)@ + quoted(field@),
{
    out.push('\'');
    push_str(out, field);
    out.push('\'');
    assert(out@ =~= old(out)@ + quoted(field@));
}

fn message_with(field: &str, rest: &str) -> (r: String)
    ensures
        r@ == quoted(field@) + rest@,
{
    let mut m: Vec<char> = Vec::new();
    push_quoted(&mut m, field);
    push_str(&mut m, rest);
    string_from_chars(m.as_slice())
}

fn message_got(field: &str, rest: &str, got: &[char]) -> (r: String)
    ensures
        r@ == quoted(field@) + rest@ + got@ + seq!['\''],
{
    let mut m: Vec<char> = Vec::new();
    push_quoted(&mut m, field);
    push_str(&mut m, rest);
    push_chars(&mut m, got);
    m.push('\'');
    assert(m@ =~= quoted(field@) + rest@ + got@ + seq!['\'']);
    string_from_chars(m.as_slice())
}

/// The `(view of the) value` of a parsed line reference.
pub open spec fn line_ref_view(r: Result<(usize, Option<String>), String>) -> Result<(usize, Option<Seq<char>>), Seq<char>> {
    match r {
        Ok((n, a)) => Ok((n, match a {
            Some(s) => Some(s@),
            None => None,
        })),
        Err(m) => Err(m@),
    }
}

/// Parse `start` / `end` values copied from readFile output (`N:anchor`).
///
/// Special case: `"0"` means prepend / top insert and carries no anchor.
pub fn parse_line_ref(raw: &str, field_name: &str) -> (r: Result<(usize, Option<String>), String>)
    ensures
        line_ref_view(r) == line_ref_outcome(raw@, field_name@),
{
    let rc = chars_of(raw);
    let t = trim_chars(rc.as_slice());
    if t.len() == 0 {
        return Err(message_with(field_name, " must be a non-empty \"N:anchor\" string"));
    }
    if contains_char(t.as_slice(), '|') {
        return Err(message_with(field_name, " must be only the \"N:anchor\" prefix from readFile output (e.g. \"42:a31f2c\"), not the trailing '|content'"));
    }
    if t.len() == 1 && t[0] == '0' {
        assert(t@ =~= seq!['0']);
        return Ok((0, None));
    }
    assert(!(t@ =~= seq!['0']));
    let k = match find_char(t.as_slice(), ':') {
        None => {
            return Err(message_with(field_name, " must use \"N:anchor\" format (e.g. \"42:a31f2c\"). Copy the prefix before '|' from workspace__readFile(showLineAnchors=true)."));
        },
        Some(k) => k,
    };
    let line_part = crate::text::slice_chars(t.as_slice(), 0, k);
    assert(line_part@ =~= t@.take(k as int));
    let rest = crate::text::slice_chars(t.as_slice(), k + 1, t.len());
    assert(rest@ =~= t@.skip(k + 1));
    let anchor = trim_chars(rest.as_slice());
    match parse_usize(line_part.as_slice()) {
        None => Err(message_got(field_name, " line number must be an integer (e.g. \"42:a31f2c\"), got '", line_part.as_slice())),
        Some(line) => {
            if anchor.len() == 0 {
                Err(message_with(field_name, " is missing the anchor after ':' (e.g. \"42:a31f2c\")"))
            } else if !(anchor.len() == 6 && all_hex_exec(anchor.as_slice())) {
                Err(message_got(field_name, " anchor must be the 6-character hex code from readFile (e.g. \"42:a31f2c\"), got '", anchor.as_slice()))
            } else {
                Ok((line, Some(string_from_chars(anchor.as_slice()))))
            }
        },
    }
}

/// The canonical spelling of an op name.
pub open spec fn normalized_op(v: Seq<char>) -> Seq<char> {
    if v == "replace"@ || v == "REPLACE"@ {
        "replace"@
    } else if v == "insert_after"@ || v == "INSERT_AFTER"@ {
        "insert_after"@
    } else if v == "delete"@ || v == "DELETE"@ {
        "delete"@
    } else {
        v
    }
}

/// Accept upper-case op names as well as the canonical lower-case ones.
pub fn normalize_edit_op_value(value: &str) -> (r: String)
    ensures
        r@ == normalized_op(value@),
{
    if str_eq(value, "replace") || str_eq(value, "REPLACE") {
        "replace".to_string()
    } else if str_eq(value, "insert_after") || str_eq(value, "INSERT_AFTER") {
        "insert_after".to_string()
    } else if str_eq(value, "delete") || str_eq(value, "DELETE") {
        "delete".to_string()
    } else {
        string_from_chars(chars_of(value).as_slice())
    }
}

/// A field of an edit object as the parser sees it: absent, a string, or
/// some other value.
pub enum FieldValue {
    Str(String),
    Other,
}

/// The op a legacy edit object implies: `insertAfter: true` means an
/// insert; otherwise a `new_value` field means a delete when it is the
/// empty string and a replace when it is anything else.
pub open spec fn legacy_op(insert_after: Option<bool>, new_value: Option<FieldValue>) -> Option<Seq<char>> {
    if insert_after == Some(true) {
        Some("insert_after"@)
    } else {
        match new_value {
            Some(FieldValue::Str(s)) => if s@.len() == 0 {
                Some("delete"@)
            } else {
                Some("replace"@)
            },
            Some(FieldValue::Other) => Some("replace"@),
            None => None,
        }
    }
}

/// Infer the op of a legacy edit object from its `insertAfter` flag (as a
/// boolean, when it is one) and its `new_value` field.
pub fn infer_legacy_edit_op(insert_after: Option<bool>, new_value: &Option<FieldValue>) -> (r: Option<&'static str>)
    ensures
        match r {
            Some(s) => legacy_op(insert_after, *new_value) == Some(s@),
            None => legacy_op(insert_after, *new_value) is None,
        },
{
    let flag = match insert_after {
        Some(b) => b,
        None => false,
    };
    if flag {
        Some("insert_after")
    } else {
        match new_value {
            Some(FieldValue::Str(s)) => {
                if chars_of(s.as_str()).len() == 0 {
                    Some("delete")
                } else {
                    Some("replace")
                }
            },
            Some(FieldValue::Other) => Some("replace"),
            None => None,
        }
    }
}

} // verus!
