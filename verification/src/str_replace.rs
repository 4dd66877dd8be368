//! Replacing one exact piece of text in a file: what a request must hold,
//! the replacement of the first occurrence, and the replies when the text
//! is missing, not unique, replaced, or cannot be written.
use vstd::prelude::*;
use crate::text::{
    chars_of, count_matches, dec, find_from, first_occ, lemma_first_occ, occurs_at, push_chars, push_dec, push_str, slice_chars,
    str_eq, string_from_chars, trim, trim_chars,
};
use crate::edit::string_views;
use crate::replace::count_occurrences;
use crate::write::opt_view;

verus! {

/// Why a replacement request is refused before the file is read.
pub enum ReplaceRefusal {
    /// `path`, `oldString` or `newString` is absent (or not a string).
    MissingParameter { field: String },
    /// `path` is blank.
    EmptyPath,
    /// `oldString` is empty.
    EmptyOldString,
    /// `oldString` equals `newString`.
    IdenticalStrings,
}

/// A replacement request that passed the checks (the path trimmed).
pub struct ReplaceRequest {
    pub path: String,
    pub old_string: String,
    pub new_string: String,
}

/// The checks on a request, in order: `Err` holds the name of a missing
/// field, or `"path"`/`"oldString"` prefixed by `!` for an empty one, or
/// `"="` for identical strings.
pub open spec fn replace_request_outcome(
    path: Option<Seq<char>>,
    old: Option<Seq<char>>,
    new: Option<Seq<char>>,
) -> Result<(Seq<char>, Seq<char>, Seq<char>), Seq<char>> {
    match path {
        None => Err("path"@),
        Some(p) => if trim(p).len() == 0 {
            Err("!path"@)
        } else {
            match old {
                None => Err("oldString"@),
                Some(o) => if o.len() == 0 {
                    Err("!oldString"@)
                } else {
                    match new {
                        None => Err("newString"@),
                        Some(n) => if o == n {
                            Err("="@)
                        } else {
                            Ok((trim(p), o, n))
                        },
                    }
                },
            }
        },
    }
}

pub open spec fn replace_refusal_code(r: ReplaceRefusal) -> Seq<char> {
    match r {
        ReplaceRefusal::MissingParameter { field } => field@,
        ReplaceRefusal::EmptyPath => "!path"@,
        ReplaceRefusal::EmptyOldString => "!oldString"@,
        ReplaceRefusal::IdenticalStrings => "="@,
    }
}

/// Checks a replacement request (each argument `None` when absent or not
/// a string).
pub fn parse_replace_request(path: Option<&str>, old_string: Option<&str>, new_string: Option<&str>) -> (r: Result<
    ReplaceRequest,
    ReplaceRefusal,
>)
    ensures
        match (r, replace_request_outcome(opt_view(path), opt_view(old_string), opt_view(new_string))) {
            (Ok(q), Ok((p, o, n))) => q.path@ == p && q.old_string@ == o && q.new_string@ == n,
            (Err(e), Err(code)) => replace_refusal_code(e) == code,
            _ => false,
        },
{
    let p = match path {
        None => {
            return Err(ReplaceRefusal::MissingParameter { field: "path".to_string() });
        },
        Some(p) => p,
    };
    let t = trim_chars(chars_of(p).as_slice());
    if t.len() == 0 {
        return Err(ReplaceRefusal::EmptyPath);
    }
    let o = match old_string {
        None => {
            return Err(ReplaceRefusal::MissingParameter { field: "oldString".to_string() });
        },
        Some(o) => o,
    };
    if o.is_empty() {
        return Err(ReplaceRefusal::EmptyOldString);
    }
    let n = match new_string {
        None => {
            return Err(ReplaceRefusal::MissingParameter { field: "newString".to_string() });
        },
        Some(n) => n,
    };
    if str_eq(o, n) {
        return Err(ReplaceRefusal::IdenticalStrings);
    }
    Ok(ReplaceRequest { path: string_from_chars(t.as_slice()), old_string: o.to_string(), new_string: n.to_string() })
}

impl ReplaceRefusal {
    /// The message and guidance of a refusal other than a missing field
    /// (which the tool layer's missing-parameter reply answers).
    pub fn guided_message(&self) -> (r: Option<(String, Vec<String>)>)
        ensures
            match self {
                ReplaceRefusal::MissingParameter { .. } => r is None,
                ReplaceRefusal::EmptyPath => r matches Some((m, g)) && m@ == "Parameter 'path' cannot be empty"@
                    && string_views(g@) == seq![
                    "Provide a valid file path: editFile({path, oldString, newString})"@,
                    "Use listDirectory('.') to find files"@,
                ],
                ReplaceRefusal::EmptyOldString => r matches Some((m, g)) && m@
                    == "Parameter 'oldString' cannot be empty"@ && string_views(g@) == seq![
                    "⚠️ CRITICAL: Call readFile FIRST to get exact content"@,
                    "Extract text exactly as shown in readFile response"@,
                    "Include surrounding context (3-5 lines) for uniqueness"@,
                ],
                ReplaceRefusal::IdenticalStrings => r matches Some((m, g)) && m@
                    == "oldString and newString are identical - no changes needed"@ && string_views(g@) == seq![
                    "The replacement would result in no changes to the file"@,
                    "Verify that newString contains the intended modifications"@,
                    "If no changes are needed, consider skipping this operation"@,
                ],
            },
    {
        match self {
            ReplaceRefusal::MissingParameter { .. } => None,
            ReplaceRefusal::EmptyPath => {
                let mut g: Vec<String> = Vec::new();
                g.push("Provide a valid file path: editFile({path, oldString, newString})".to_string());
                g.push("Use listDirectory('.') to find files".to_string());
                assert(string_views(g@) =~= seq![
                    "Provide a valid file path: editFile({path, oldString, newString})"@,
                    "Use listDirectory('.') to find files"@,
                ]);
                Some(("Parameter 'path' cannot be empty".to_string(), g))
            },
            ReplaceRefusal::EmptyOldString => {
                let mut g: Vec<String> = Vec::new();
                g.push("⚠️ CRITICAL: Call readFile FIRST to get exact content".to_string());
                g.push("Extract text exactly as shown in readFile response".to_string());
                g.push("Include surrounding context (3-5 lines) for uniqueness".to_string());
                assert(string_views(g@) =~= seq![
                    "⚠️ CRITICAL: Call readFile FIRST to get exact content"@,
                    "Extract text exactly as shown in readFile response"@,
                    "Include surrounding context (3-5 lines) for uniqueness"@,
                ]);
                Some(("Parameter 'oldString' cannot be empty".to_string(), g))
            },
            ReplaceRefusal::IdenticalStrings => {
                let mut g: Vec<String> = Vec::new();
                g.push("The replacement would result in no changes to the file".to_string());
                g.push("Verify that newString contains the intended modifications".to_string());
                g.push("If no changes are needed, consider skipping this operation".to_string());
                assert(string_views(g@) =~= seq![
                    "The replacement would result in no changes to the file"@,
                    "Verify that newString contains the intended modifications"@,
                    "If no changes are needed, consider skipping this operation"@,
                ]);
                Some(("oldString and newString are identical - no changes needed".to_string(), g))
            },
        }
    }
}

// ---------------------------------------------------------------------------
// The replacement
// ---------------------------------------------------------------------------

/// `content` with the first occurrence of `old` replaced by `new`
/// (unchanged when `old` does not occur), as `str::replacen(old, new, 1)`.
pub open spec fn replaced_first(content: Seq<char>, old: Seq<char>, new: Seq<char>) -> Seq<char> {
    let i = first_occ(content, old);
    if i < 0 {
        content
    } else {
        content.take(i) + new + content.skip(i + old.len())
    }
}

/// Replaces the first occurrence of `old` in `content` by `new`.
pub fn replace_first(content: &str, old: &str, new: &str) -> (r: String)
    ensures
        r@ == replaced_first(content@, old@, new@),
{
    let c = chars_of(content);
    let o = chars_of(old);
    proof {
        lemma_first_occ(c@, o@);
        assert(c@.skip(0) =~= c@);
    }
    match find_from(c.as_slice(), o.as_slice(), 0) {
        None => content.to_string(),
        Some(i) => {
            proof {
                assert(first_occ(c@, o@) == i);
                assert(occurs_at(c@, o@, i as int));
                assert(i + o@.len() <= c@.len());
            }
            assert(i + o.len() <= c.len());
            let head = slice_chars(c.as_slice(), 0, i);
            let tail = slice_chars(c.as_slice(), i + o.len(), c.len());
            let mut out: Vec<char> = Vec::new();
            push_chars(&mut out, head.as_slice());
            push_str(&mut out, new);
            push_chars(&mut out, tail.as_slice());
            assert(head@ =~= c@.take(i as int));
            assert(tail@ =~= c@.skip(i + o@.len()));
            string_from_chars(out.as_slice())
        },
    }
}

/// What a replacement in a read file comes to.
pub enum ReplaceDecision {
    /// Exactly one occurrence: the new content.
    Replace(String),
    /// Several occurrences: how many.
    NotUnique(usize),
    /// No occurrence.
    NotFound,
}

/// Decides a replacement by the number of non-overlapping occurrences of
/// `old` in `content`, and makes it when there is exactly one.
pub fn decide_replace(content: &str, old: &str, new: &str) -> (r: ReplaceDecision)
    ensures
        match r {
            ReplaceDecision::NotFound => count_matches(content@, old@) == 0,
            ReplaceDecision::NotUnique(n) => count_matches(content@, old@) > 1 && n == count_matches(content@, old@),
            ReplaceDecision::Replace(c) => count_matches(content@, old@) == 1 && c@ == replaced_first(
                content@,
                old@,
                new@,
            ),
        },
{
    let n = count_occurrences(content, old);
    if n == 0 {
        ReplaceDecision::NotFound
    } else if n > 1 {
        ReplaceDecision::NotUnique(n)
    } else {
        ReplaceDecision::Replace(replace_first(content, old, new))
    }
}

// ---------------------------------------------------------------------------
// Replies
// ---------------------------------------------------------------------------

/// The refusal when `old` occurs `n > 1` times.
pub open spec fn not_unique(path: Seq<char>, n: nat) -> (Seq<char>, Seq<Seq<char>>) {
    (
        "Pattern found "@ + dec(n) + " times (not unique)"@,
        seq![
            "Include more surrounding context (3-5 more lines) to make the pattern unique"@,
            "Use readFile('"@ + path + "') to see full content and find unique context"@,
        ],
    )
}

pub fn not_unique_message(path: &str, n: usize) -> (r: (String, Vec<String>))
    ensures
        (r.0@, string_views(r.1@)) == not_unique(path@, n as nat),
{
    let mut m: Vec<char> = Vec::new();
    push_str(&mut m, "Pattern found ");
    push_dec(&mut m, n as u64);
    push_str(&mut m, " times (not unique)");
    let mut b: Vec<char> = Vec::new();
    push_str(&mut b, "Use readFile('");
    push_str(&mut b, path);
    push_str(&mut b, "') to see full content and find unique context");
    let mut g: Vec<String> = Vec::new();
    g.push("Include more surrounding context (3-5 more lines) to make the pattern unique".to_string());
    g.push(string_from_chars(b.as_slice()));
    let r = (string_from_chars(m.as_slice()), g);
    assert(string_views(r.1@) =~= not_unique(path@, n as nat).1);
    r
}

/// The refusal when `old` does not occur: with the most similar window
/// when one was found (its 1-based line, its similarity in percent, and
/// the number of lines searched), or a plain notice.
pub open spec fn not_found(path: Seq<char>, similar: Option<(nat, nat)>, search_lines: nat) -> (Seq<char>, Seq<Seq<char>>) {
    match similar {
        Some((line, percent)) => (
            "Pattern NOT FOUND (but "@ + dec(percent) + "% similar at line "@ + dec(line) + seq![')'],
            seq![
                "Use readFile('"@ + path + "', "@ + dec(line) + ", "@ + dec(
                    (line + (if search_lines >= 1 { search_lines - 1 } else { 0 })) as nat,
                ) + ") to see actual content"@,
                "Extract the EXACT text from readFile response including ALL whitespace (newlines, indentation)"@,
                "Include 3-5 lines of surrounding context for uniqueness"@,
            ],
        ),
        None => (
            "Pattern NOT FOUND in file"@,
            seq![
                "Use readFile('"@ + path + "') to see current file content"@,
                "Verify you are copying the text exactly as it appears in the latest readFile output"@,
            ],
        ),
    }
}

pub fn not_found_message(path: &str, similar: Option<(usize, u32)>, search_lines: usize) -> (r: (String, Vec<String>))
    requires
        similar matches Some((line, _)) ==> line + search_lines <= u64::MAX,
    ensures
        (r.0@, string_views(r.1@)) == not_found(
            path@,
            match similar {
                Some((l, p)) => Some((l as nat, p as nat)),
                None => None,
            },
            search_lines as nat,
        ),
{
    let mut g: Vec<String> = Vec::new();
    let mut m: Vec<char> = Vec::new();
    match similar {
        Some((line, percent)) => {
            push_str(&mut m, "Pattern NOT FOUND (but ");
            push_dec(&mut m, percent as u64);
            push_str(&mut m, "% similar at line ");
            push_dec(&mut m, line as u64);
            m.push(')');
            let last = if search_lines >= 1 { line as u64 + (search_lines - 1) as u64 } else { line as u64 };
            let mut a: Vec<char> = Vec::new();
            push_str(&mut a, "Use readFile('");
            push_str(&mut a, path);
            push_str(&mut a, "', ");
            push_dec(&mut a, line as u64);
            push_str(&mut a, ", ");
            push_dec(&mut a, last);
            push_str(&mut a, ") to see actual content");
            g.push(string_from_chars(a.as_slice()));
            g.push(
                "Extract the EXACT text from readFile response including ALL whitespace (newlines, indentation)".to_string(),
            );
            g.push("Include 3-5 lines of surrounding context for uniqueness".to_string());
        },
        None => {
            push_str(&mut m, "Pattern NOT FOUND in file");
            let mut a: Vec<char> = Vec::new();
            push_str(&mut a, "Use readFile('");
            push_str(&mut a, path);
            push_str(&mut a, "') to see current file content");
            g.push(string_from_chars(a.as_slice()));
            g.push("Verify you are copying the text exactly as it appears in the latest readFile output".to_string());
        },
    }
    let r = (string_from_chars(m.as_slice()), g);
    assert(string_views(r.1@) =~= not_found(
        path@,
        match similar {
            Some((l, p)) => Some((l as nat, p as nat)),
            None => None,
        },
        search_lines as nat,
    ).1);
    r
}

/// The reply to a successful replacement, around the diff of the change.
pub open spec fn replaced_report(path: Seq<char>, diff: Seq<char>) -> (Seq<char>, Seq<Seq<char>>) {
    (
        "**✅ File Edited Successfully**\n\n**File:** `"@ + path + "`\n\n**Changes:**\n"@ + diff,
        seq![
            "Use readFile to verify the changes"@,
            "For multiple changes, call editFile again or use editFileMulti"@,
            "Each replacement is atomic and independent"@,
        ],
    )
}

pub fn replaced_message(path: &str, diff: &str) -> (r: (String, Vec<String>))
    ensures
        (r.0@, string_views(r.1@)) == replaced_report(path@, diff@),
{
    let mut m: Vec<char> = Vec::new();
    push_str(&mut m, "**✅ File Edited Successfully**\n\n**File:** `");
    push_str(&mut m, path);
    push_str(&mut m, "`\n\n**Changes:**\n");
    push_str(&mut m, diff);
    let mut g: Vec<String> = Vec::new();
    g.push("Use readFile to verify the changes".to_string());
    g.push("For multiple changes, call editFile again or use editFileMulti".to_string());
    g.push("Each replacement is atomic and independent".to_string());
    let r = (string_from_chars(m.as_slice()), g);
    assert(string_views(r.1@) =~= replaced_report(path@, diff@).1);
    r
}

/// The refusal when the file cannot be written: a permission problem, or
/// any other error (its text).
pub open spec fn write_failed(path: Seq<char>, permission: bool, error: Seq<char>) -> (Seq<char>, Seq<Seq<char>>) {
    if permission {
        (
            "Permission denied writing to '"@ + path + seq!['\''],
            seq!["File may be read-only or locked by another process"@, "Use listDirectory to check file permissions"@],
        )
    } else {
        (
            error,
            seq!["File may be locked or inaccessible"@, "Use readFile('"@ + path + "') to verify file still exists"@],
        )
    }
}

pub fn write_failed_message(path: &str, permission: bool, error: &str) -> (r: (String, Vec<String>))
    ensures
        (r.0@, string_views(r.1@)) == write_failed(path@, permission, error@),
{
    let mut g: Vec<String> = Vec::new();
    if permission {
        let mut m: Vec<char> = Vec::new();
        push_str(&mut m, "Permission denied writing to '");
        push_str(&mut m, path);
        m.push('\'');
        g.push("File may be read-only or locked by another process".to_string());
        g.push("Use listDirectory to check file permissions".to_string());
        let r = (string_from_chars(m.as_slice()), g);
        assert(r.0@ =~= write_failed(path@, permission, error@).0);
        assert(string_views(r.1@) =~= write_failed(path@, permission, error@).1);
        r
    } else {
        let mut a: Vec<char> = Vec::new();
        push_str(&mut a, "Use readFile('");
        push_str(&mut a, path);
        push_str(&mut a, "') to verify file still exists");
        g.push("File may be locked or inaccessible".to_string());
        g.push(string_from_chars(a.as_slice()));
        let r = (error.to_string(), g);
        assert(string_views(r.1@) =~= write_failed(path@, permission, error@).1);
        r
    }
}

/// The number of positions at which two texts hold the same character,
/// over the length of the shorter (the numerator of the similarity that
/// suggests a near match).
pub open spec fn matching_chars(a: Seq<char>, b: Seq<char>) -> nat
    decreases a.len(),
{
    if a.len() == 0 || b.len() == 0 {
        0
    } else {
        matching_chars(a.drop_first(), b.drop_first()) + if a[0] == b[0] { 1nat } else { 0nat }
    }
}

pub fn count_matching_chars(a: &str, b: &str) -> (r: usize)
    ensures
        r == matching_chars(a@, b@),
{
    let x = chars_of(a);
    let y = chars_of(b);
    let m = if x.len() < y.len() { x.len() } else { y.len() };
    let mut n: usize = 0;
    let mut k: usize = 0;
    assert(x@.skip(0) =~= x@);
    assert(y@.skip(0) =~= y@);
    while k < m
        invariant
            k <= m,
            m <= x.len(),
            m <= y.len(),
            m == x.len() || m == y.len(),
            n + matching_chars(x@.skip(k as int), y@.skip(k as int)) == matching_chars(x@, y@),
            n <= k,
        decreases m - k,
    {
        proof {
            assert(x@.skip(k as int).drop_first() =~= x@.skip(k + 1));
            assert(y@.skip(k as int).drop_first() =~= y@.skip(k + 1));
        }
        if x[k] == y[k] {
            n = n + 1;
        }
        k += 1;
    }
    n
}

} // verus!
