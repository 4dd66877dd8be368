//! Previewing an exact-text replacement without writing it: what a request
//! must hold, the decision between "ready", "not unique" and "not found",
//! and the replies.
use vstd::prelude::*;
use crate::text::{chars_of, count_matches, dec, lemma_lines_nonempty, lines_of, push_dec, push_str, string_from_chars, trim, trim_chars};
use crate::edit::string_views;
use crate::processes::GuidedMessage;
use crate::replace::{count_occurrences, generate_replacement_context, replacement_context};
use crate::str_replace::{not_unique, not_unique_message};
use crate::write::opt_view;

verus! {

/// Why a preview request is refused before the file is read.
pub enum PreviewRefusal {
    /// `path`, `oldString` or `newString` is absent (or not a string).
    MissingParameter { field: String },
    /// `path` is blank.
    EmptyPath,
    /// `oldString` is empty.
    EmptyOldString,
}

/// A preview request that passed the checks (the path trimmed).
pub struct PreviewRequest {
    pub path: String,
    pub old_string: String,
    pub new_string: String,
}

/// The checks on a preview request, in order: `Err` holds the name of a
/// missing field, or `"path"`/`"oldString"` prefixed by `!` for an empty
/// one. (Unlike a replacement, identical strings are previewed.)
pub open spec fn preview_request_outcome(
    path: Option<Seq<char>>,
    old: Option<Seq<char>>,
    new: Option<Seq<char>>,
) -> Result<(Seq<char>, Seq<char>, Seq<char>), Seq<char>> {
    match path {
        None => Err("path"@),
        Some(p) => if trim(p).len() == 0 {
            Err("!path"@)
        } else {
            match old {
                None => Err("oldString"@),
                Some(o) => if o.len() == 0 {
                    Err("!oldString"@)
                } else {
                    match new {
                        None => Err("newString"@),
                        Some(n) => Ok((trim(p), o, n)),
                    }
                },
            }
        },
    }
}

pub open spec fn preview_refusal_code(r: PreviewRefusal) -> Seq<char> {
    match r {
        PreviewRefusal::MissingParameter { field } => field@,
        PreviewRefusal::EmptyPath => "!path"@,
        PreviewRefusal::EmptyOldString => "!oldString"@,
    }
}

/// Checks a preview request (each argument `None` when absent or not a
/// string).
pub fn parse_preview_request(path: Option<&str>, old_string: Option<&str>, new_string: Option<&str>) -> (r: Result<
    PreviewRequest,
    PreviewRefusal,
>)
    ensures
        match (r, preview_request_outcome(opt_view(path), opt_view(old_string), opt_view(new_string))) {
            (Ok(q), Ok((p, o, n))) => q.path@ == p && q.old_string@ == o && q.new_string@ == n,
            (Err(e), Err(code)) => preview_refusal_code(e) == code,
            _ => false,
        },
{
    let p = match path {
        None => {
            return Err(PreviewRefusal::MissingParameter { field: "path".to_string() });
        },
        Some(p) => p,
    };
    let t = trim_chars(chars_of(p).as_slice());
    if t.len() == 0 {
        return Err(PreviewRefusal::EmptyPath);
    }
    let o = match old_string {
        None => {
            return Err(PreviewRefusal::MissingParameter { field: "oldString".to_string() });
        },
        Some(o) => o,
    };
    if o.is_empty() {
        return Err(PreviewRefusal::EmptyOldString);
    }
    let n = match new_string {
        None => {
            return Err(PreviewRefusal::MissingParameter { field: "newString".to_string() });
        },
        Some(n) => n,
    };
    Ok(PreviewRequest { path: string_from_chars(t.as_slice()), old_string: o.to_string(), new_string: n.to_string() })
}

impl PreviewRefusal {
    /// The message and guidance of a refusal other than a missing field
    /// (which the tool layer's missing-parameter reply answers).
    pub fn guided_message(&self) -> (r: Option<GuidedMessage>)
        ensures
            match self {
                PreviewRefusal::MissingParameter { .. } => r is None,
                PreviewRefusal::EmptyPath => r matches Some(g) && g.message@ == "Parameter 'path' cannot be empty"@
                    && string_views(g.guidance@) == seq!["Provide a valid file path"@],
                PreviewRefusal::EmptyOldString => r matches Some(g) && g.message@
                    == "Parameter 'oldString' cannot be empty"@ && string_views(g.guidance@) == seq![
                    "Extract exact text from readFile response"@,
                    "Include surrounding context for uniqueness"@,
                ],
            },
    {
        match self {
            PreviewRefusal::MissingParameter { .. } => None,
            PreviewRefusal::EmptyPath => {
                let mut g: Vec<String> = Vec::new();
                g.push("Provide a valid file path".to_string());
                assert(string_views(g@) =~= seq!["Provide a valid file path"@]);
                Some(GuidedMessage { message: "Parameter 'path' cannot be empty".to_string(), guidance: g })
            },
            PreviewRefusal::EmptyOldString => {
                let mut g: Vec<String> = Vec::new();
                g.push("Extract exact text from readFile response".to_string());
                g.push("Include surrounding context for uniqueness".to_string());
                assert(string_views(g@) =~= seq![
                    "Extract exact text from readFile response"@,
                    "Include surrounding context for uniqueness"@,
                ]);
                Some(GuidedMessage { message: "Parameter 'oldString' cannot be empty".to_string(), guidance: g })
            },
        }
    }
}

fn around(before: &str, path: &str, after: &str) -> (r: String)
    ensures
        r@ == before@ + path@ + after@,
{
    let mut v: Vec<char> = Vec::new();
    push_str(&mut v, before);
    push_str(&mut v, path);
    push_str(&mut v, after);
    string_from_chars(v.as_slice())
}

/// What to do when the file to preview cannot be read.
pub open spec fn preview_read_failed(path: Seq<char>) -> Seq<Seq<char>> {
    seq!["Verify file exists with listDirectory"@, "Use readFile('"@ + path + "') to check content"@]
}

pub fn preview_read_failed_guidance(path: &str) -> (r: Vec<String>)
    ensures
        string_views(r@) == preview_read_failed(path@),
{
    let mut g: Vec<String> = Vec::new();
    g.push("Verify file exists with listDirectory".to_string());
    g.push(around("Use readFile('", path, "') to check content"));
    assert(string_views(g@) =~= preview_read_failed(path@));
    g
}

/// The refusal when `old` does not occur: with the most similar window
/// when one was found (its 1-based line, its similarity in percent, and
/// the number of lines searched), or a plain notice.
pub open spec fn preview_not_found(path: Seq<char>, similar: Option<(nat, nat)>, search_lines: nat) -> (Seq<char>, Seq<Seq<char>>) {
    match similar {
        Some((line, percent)) => (
            "Pattern NOT FOUND (but "@ + dec(percent) + "% similar at line "@ + dec(line) + seq![')'],
            seq![
                "Use readFile('"@ + path + "', "@ + dec(line) + ", "@ + dec(
                    (line + (if search_lines >= 1 { search_lines - 1 } else { 0 })) as nat,
                ) + ") to see actual content on these lines"@,
                "Extract the EXACT text from readFile response including ALL whitespace"@,
            ],
        ),
        None => (
            "Pattern NOT FOUND in file"@,
            seq![
                "Use readFile('"@ + path + "') to see full current content"@,
                "Verify the string you are trying to replace is exactly as it appears in the file"@,
            ],
        ),
    }
}

pub fn preview_not_found_message(path: &str, similar: Option<(usize, u32)>, search_lines: usize) -> (r: GuidedMessage)
    requires
        similar matches Some((line, _)) ==> line + search_lines <= u64::MAX,
    ensures
        (r.message@, string_views(r.guidance@)) == preview_not_found(
            path@,
            match similar {
                Some((l, p)) => Some((l as nat, p as nat)),
                None => None,
            },
            search_lines as nat,
        ),
{
    match similar {
        Some((line, percent)) => {
            let mut m: Vec<char> = Vec::new();
            push_str(&mut m, "Pattern NOT FOUND (but ");
            push_dec(&mut m, percent as u64);
            push_str(&mut m, "% similar at line ");
            push_dec(&mut m, line as u64);
            m.push(')');
            let last: u64 = line as u64 + if search_lines >= 1 { search_lines as u64 - 1 } else { 0 };
            let mut a: Vec<char> = Vec::new();
            push_str(&mut a, "Use readFile('");
            push_str(&mut a, path);
            push_str(&mut a, "', ");
            push_dec(&mut a, line as u64);
            push_str(&mut a, ", ");
            push_dec(&mut a, last);
            push_str(&mut a, ") to see actual content on these lines");
            let mut g: Vec<String> = Vec::new();
            g.push(string_from_chars(a.as_slice()));
            g.push("Extract the EXACT text from readFile response including ALL whitespace".to_string());
            let r = GuidedMessage { message: string_from_chars(m.as_slice()), guidance: g };
            let ghost want = preview_not_found(path@, Some((line as nat, percent as nat)), search_lines as nat);
            assert(r.message@ =~= want.0);
            assert(string_views(r.guidance@) =~= want.1);
            r
        },
        None => {
            let mut g: Vec<String> = Vec::new();
            g.push(around("Use readFile('", path, "') to see full current content"));
            g.push("Verify the string you are trying to replace is exactly as it appears in the file".to_string());
            let r = GuidedMessage { message: "Pattern NOT FOUND in file".to_string(), guidance: g };
            assert(string_views(r.guidance@) =~= preview_not_found(path@, None, search_lines as nat).1);
            r
        },
    }
}

/// The reply to a previewed replacement: the file, the match status and
/// the changes in a diff fence, then what to do next.
pub open spec fn preview_ready(path: Seq<char>, diff: Seq<char>) -> (Seq<char>, Seq<Seq<char>>) {
    (
        "**🔍 Preview Replacement**\n\n**File:** `"@ + path
            + "`\n**Status:** ✅ EXACT MATCH FOUND\n\n**Changes Preview:**\n```diff\n"@ + diff + "\n```"@,
        seq![
            "Preview looks correct? Call editFile with SAME parameters to apply"@,
            "Use readFile to see full file context if needed"@,
        ],
    )
}

pub fn preview_ready_message(path: &str, diff: &str) -> (r: GuidedMessage)
    ensures
        (r.message@, string_views(r.guidance@)) == preview_ready(path@, diff@),
{
    let mut m: Vec<char> = Vec::new();
    push_str(&mut m, "**🔍 Preview Replacement**\n\n**File:** `");
    push_str(&mut m, path);
    push_str(&mut m, "`\n**Status:** ✅ EXACT MATCH FOUND\n\n**Changes Preview:**\n```diff\n");
    push_str(&mut m, diff);
    push_str(&mut m, "\n```");
    let mut g: Vec<String> = Vec::new();
    g.push("Preview looks correct? Call editFile with SAME parameters to apply".to_string());
    g.push("Use readFile to see full file context if needed".to_string());
    let r = GuidedMessage { message: string_from_chars(m.as_slice()), guidance: g };
    assert(r.message@ =~= preview_ready(path@, diff@).0);
    assert(string_views(r.guidance@) =~= preview_ready(path@, diff@).1);
    r
}

/// What a preview of a read file comes to.
pub enum PreviewDecision {
    /// Exactly one occurrence: the reply (message and next steps).
    Ready(GuidedMessage),
    /// Several occurrences: the refusal.
    NotUnique(GuidedMessage),
    /// No occurrence: the caller looks for similar text and answers with
    /// `preview_not_found_message`.
    NotFound,
}

/// Decides a preview by the number of non-overlapping occurrences of
/// `old_string` in `content`.
pub fn decide_preview(path: &str, content: &str, old_string: &str, new_string: &str) -> (r: PreviewDecision)
    requires
        old_string@.len() > 0,
        lines_of(content@).len() + lines_of(new_string@).len() < usize::MAX,
    ensures
        match r {
            PreviewDecision::NotFound => count_matches(content@, old_string@) == 0,
            PreviewDecision::NotUnique(g) => count_matches(content@, old_string@) > 1 && (
            g.message@,
            string_views(g.guidance@),
            ) == not_unique(path@, count_matches(content@, old_string@)),
            PreviewDecision::Ready(g) => count_matches(content@, old_string@) == 1 && (
            g.message@,
            string_views(g.guidance@),
            ) == preview_ready(path@, replacement_context(content@, old_string@, new_string@)),
        },
{
    let n = count_occurrences(content, old_string);
    if n == 0 {
        return PreviewDecision::NotFound;
    }
    if n > 1 {
        let (m, g) = not_unique_message(path, n);
        return PreviewDecision::NotUnique(GuidedMessage { message: m, guidance: g });
    }
    proof {
        lemma_lines_nonempty(old_string@);
    }
    let diff = generate_replacement_context(content, old_string, new_string);
    PreviewDecision::Ready(preview_ready_message(path, diff.as_str()))
}

} // verus!
