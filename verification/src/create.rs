//! Creating a new file that must not exist yet: the guidance on a refused
//! request, the refusal when the file is already there, and the reply that
//! shows what was written (a preview cut at 100 lines or 50 KiB).
use vstd::prelude::*;
use crate::text::{
    chars_of, copy_chars, dec, join, join_chars, lines_of, push_chars, push_dec, push_str, seqs_of, slice_chars,
    split_lines, string_from_chars, lemma_lines_nonempty, ends_with, ends_with_exec,
    contains_seq, contains_lit,
};
use crate::edit::string_views;
use crate::processes::GuidedMessage;
use crate::read::{byte_len, byte_len_exec};
use crate::search::{char_index_at, char_index_of, is_char_boundary};
use crate::write::WriteRefusal;
use crate::sizes::{file_size_text, format_file_size};
use crate::utils::{detect_language, has_plain_file_name, is_language_name, plain_path_language};

verus! {

/// At most this many lines of a new file are shown back.
pub const CREATE_PREVIEW_MAX_LINES: usize = 100usize;

/// At most this many bytes of a new file are shown back.
pub const CREATE_PREVIEW_MAX_BYTES: usize = 51200usize;

// ---------------------------------------------------------------------------
// Refusals
// ---------------------------------------------------------------------------

/// The message and guidance of a blank path or a traversal in a request to
/// create a file; a missing field is answered by the tool layer's
/// missing-parameter reply.
pub fn create_refusal_message(refusal: &WriteRefusal) -> (r: Option<GuidedMessage>)
    ensures
        match refusal {
            WriteRefusal::MissingParameter { .. } => r is None,
            WriteRefusal::EmptyPath => r matches Some(g) && g.message@ == "Path parameter cannot be empty"@
                && string_views(g.guidance@) == seq![
                "Provide a file path relative to workspace root"@,
                "Example: {\"path\": \"src/main.rs\"}"@,
                "Use listDirectory('.') to explore available paths"@,
            ],
            WriteRefusal::PathTraversal => r matches Some(g) && g.message@
                == "Path traversal patterns (..) are not allowed"@ && string_views(g.guidance@) == seq![
                "Use relative paths from workspace root"@,
                "Example: 'src/main.rs' instead of '../src/main.rs'"@,
                "Use listDirectory to explore available paths"@,
            ],
        },
{
    match refusal {
        WriteRefusal::MissingParameter { .. } => None,
        WriteRefusal::EmptyPath => {
            let mut g: Vec<String> = Vec::new();
            g.push("Provide a file path relative to workspace root".to_string());
            g.push("Example: {\"path\": \"src/main.rs\"}".to_string());
            g.push("Use listDirectory('.') to explore available paths".to_string());
            assert(string_views(g@) =~= seq![
                "Provide a file path relative to workspace root"@,
                "Example: {\"path\": \"src/main.rs\"}"@,
                "Use listDirectory('.') to explore available paths"@,
            ]);
            Some(GuidedMessage { message: "Path parameter cannot be empty".to_string(), guidance: g })
        },
        WriteRefusal::PathTraversal => {
            let mut g: Vec<String> = Vec::new();
            g.push("Use relative paths from workspace root".to_string());
            g.push("Example: 'src/main.rs' instead of '../src/main.rs'".to_string());
            g.push("Use listDirectory to explore available paths".to_string());
            assert(string_views(g@) =~= seq![
                "Use relative paths from workspace root"@,
                "Example: 'src/main.rs' instead of '../src/main.rs'"@,
                "Use listDirectory to explore available paths"@,
            ]);
            Some(GuidedMessage { message: "Path traversal patterns (..) are not allowed".to_string(), guidance: g })
        },
    }
}

/// The refusal to create a file that already exists, with the two ways to
/// change it instead.
pub open spec fn exists_refusal(path: Seq<char>) -> (Seq<char>, Seq<Seq<char>>) {
    (
        "File '"@ + path + "' already exists - createFile cannot overwrite"@,
        seq![
            "✅ RECOMMENDED: For incremental changes (safer)"@,
            "   → First: readFile(\""@ + path + "\") to see current content"@,
            "   → Then: editFile(\""@ + path + "\", oldText, newText)"@,
            "   → Why: Preserves existing content, only changes specific sections"@,
            ""@,
            "⚠️ ALTERNATIVE: Complete file replacement (destructive)"@,
            "   → First: deleteFile(\""@ + path + "\")"@,
            "   → Then: createFile(\""@ + path + "\", newContent)"@,
            "   → Why: Use when rewriting entire file structure"@,
            ""@,
            "💡 DECISION GUIDE:"@,
            "   • Small edits → Use editFile"@,
            "   • Add/remove sections → Use editFile"@,
            "   • Complete rewrite → Use deleteFile + createFile"@,
        ],
    )
}

fn around(before: &str, path: &str, after: &str) -> (r: String)
    ensures
        r@ == before@ + path@ + after@,
{
    let mut v: Vec<char> = Vec::new();
    push_str(&mut v, before);
    push_str(&mut v, path);
    push_str(&mut v, after);
    string_from_chars(v.as_slice())
}

pub fn create_exists_refusal(path: &str) -> (r: GuidedMessage)
    ensures
        (r.message@, string_views(r.guidance@)) == exists_refusal(path@),
{
    let m = around("File '", path, "' already exists - createFile cannot overwrite");
    let mut g: Vec<String> = Vec::new();
    g.push("✅ RECOMMENDED: For incremental changes (safer)".to_string());
    g.push(around("   → First: readFile(\"", path, "\") to see current content"));
    g.push(around("   → Then: editFile(\"", path, "\", oldText, newText)"));
    g.push("   → Why: Preserves existing content, only changes specific sections".to_string());
    g.push("".to_string());
    g.push("⚠️ ALTERNATIVE: Complete file replacement (destructive)".to_string());
    g.push(around("   → First: deleteFile(\"", path, "\")"));
    g.push(around("   → Then: createFile(\"", path, "\", newContent)"));
    g.push("   → Why: Use when rewriting entire file structure".to_string());
    g.push("".to_string());
    g.push("💡 DECISION GUIDE:".to_string());
    g.push("   • Small edits → Use editFile".to_string());
    g.push("   • Add/remove sections → Use editFile".to_string());
    g.push("   • Complete rewrite → Use deleteFile + createFile".to_string());
    let r = GuidedMessage { message: m, guidance: g };
    assert(string_views(r.guidance@) =~= exists_refusal(path@).1);
    r
}

// ---------------------------------------------------------------------------
// The preview
// ---------------------------------------------------------------------------

pub open spec fn min_nat(a: nat, b: nat) -> nat {
    if a <= b { a } else { b }
}

/// The preview is cut when the file has more than 100 lines or more than
/// 51200 bytes.
pub open spec fn create_truncated(c: Seq<char>) -> bool {
    lines_of(c).len() > 100 || byte_len(c) > 51200
}

/// The lines a cut preview shows: the first 100 lines of the first 51200
/// bytes when the file is larger than that, else the first 100 lines.
pub open spec fn create_shown_lines(c: Seq<char>) -> Seq<Seq<char>> {
    let ls = if byte_len(c) > 51200 {
        lines_of(c.take(char_index_of(c, 51200)))
    } else {
        lines_of(c)
    };
    ls.take(min_nat(ls.len(), 100) as int)
}

/// The text shown for a new file: all of it, or the shown lines and a note
/// that says how many of how many lines (and what percentage) are shown.
pub open spec fn create_preview_text(c: Seq<char>) -> Seq<char> {
    if create_truncated(c) {
        let shown = create_shown_lines(c);
        let total = lines_of(c).len();
        join(shown, seq!['\n']) + "\n\n... ⚠️ TRUNCATED: Showing first "@ + dec(shown.len()) + " of "@ + dec(total)
            + " lines ("@ + dec(shown.len() * 100 / total) + "% shown)"@
    } else {
        c
    }
}

/// The preview of a new file, and whether it was cut.
pub struct CreatePreview {
    pub text: String,
    pub truncated: bool,
}

fn first_lines(ls: &Vec<Vec<char>>, n: usize) -> (r: Vec<Vec<char>>)
    ensures
        seqs_of(r@) == seqs_of(ls@).take(min_nat(ls@.len(), n as nat) as int),
{
    let k = if ls.len() <= n { ls.len() } else { n };
    let mut r: Vec<Vec<char>> = Vec::new();
    let mut i: usize = 0;
    while i < k
        invariant
            k <= ls.len(),
            k == min_nat(ls@.len(), n as nat),
            i <= k,
            seqs_of(r@) == seqs_of(ls@).take(i as int),
        decreases k - i,
    {
        let c = copy_chars(ls[i].as_slice());
        let ghost before = r@;
        r.push(c);
        assert(seqs_of(r@) =~= seqs_of(before).push(ls@[i as int]@));
        assert(seqs_of(ls@).take(i + 1) =~= seqs_of(ls@).take(i as int).push(ls@[i as int]@));
        i += 1;
    }
    r
}

/// Builds the preview of a new file. (When the file is larger than 51200
/// bytes, that offset must fall between two characters.)
pub fn create_preview(content: &str) -> (r: CreatePreview)
    requires
        byte_len(content@) > 51200 ==> is_char_boundary(content@, 51200),
    ensures
        r.truncated == create_truncated(content@),
        r.text@ == create_preview_text(content@),
{
    let cs = chars_of(content);
    let all = split_lines(cs.as_slice());
    let nbytes = byte_len_exec(cs.as_slice());
    let truncated = all.len() > CREATE_PREVIEW_MAX_LINES || nbytes > 51200;
    if !truncated {
        return CreatePreview { text: string_from_chars(cs.as_slice()), truncated: false };
    }
    let shown = if nbytes > 51200 {
        let k = char_index_at(cs.as_slice(), 51200);
        let head = slice_chars(cs.as_slice(), 0, k);
        assert(head@ == content@.take(k as int));
        let cut = split_lines(head.as_slice());
        first_lines(&cut, CREATE_PREVIEW_MAX_LINES)
    } else {
        first_lines(&all, CREATE_PREVIEW_MAX_LINES)
    };
    proof {
        if nbytes > 51200 {
            crate::read::lemma_byte_len_bound(content@);
            assert(content@.len() > 0);
        }
        if content@.len() > 0 {
            lemma_lines_nonempty(content@);
        }
    }
    let total = all.len();
    let nl = chars_of("\n");
    proof {
        reveal_strlit("\n");
        assert(nl@ =~= seq!['\n']);
    }
    let mut out = join_chars(&shown, nl.as_slice());
    push_str(&mut out, "\n\n... ⚠️ TRUNCATED: Showing first ");
    push_dec(&mut out, shown.len() as u64);
    push_str(&mut out, " of ");
    push_dec(&mut out, total as u64);
    push_str(&mut out, " lines (");
    push_dec(&mut out, ((shown.len() * 100) / total) as u64);
    push_str(&mut out, "% shown)");
    assert(out@ =~= create_preview_text(content@));
    CreatePreview { text: string_from_chars(out.as_slice()), truncated: true }
}

// ---------------------------------------------------------------------------
// The reply
// ---------------------------------------------------------------------------

/// A file whose next steps suggest line edits.
pub open spec fn is_prose_or_code(path: Seq<char>) -> bool {
    ends_with(path, ".md"@) || ends_with(path, ".txt"@) || ends_with(path, ".rs"@) || ends_with(path, ".js"@)
        || ends_with(path, ".ts"@)
}

/// A file whose next steps also suggest checking its structure.
pub open spec fn is_structured(path: Seq<char>) -> bool {
    ends_with(path, ".json"@) || ends_with(path, ".yaml"@)
}

/// The next steps under a created file: the preview note, a pointer to the
/// full text when the preview was cut, what suits the kind of file, and
/// how to remove it.
pub open spec fn create_steps(path: Seq<char>, truncated: bool) -> Seq<Seq<char>> {
    let edit = "- ✏️ Use `editFile(\""@ + path + "\", oldText, newText)` for edits"@;
    seq!["- Content verified above (preview only)"@] + (if truncated {
        seq!["- 📖 Use `readFile(\""@ + path + "\")` to see full content"@]
    } else {
        Seq::<Seq<char>>::empty()
    }) + (if is_prose_or_code(path) {
        seq![edit]
    } else if is_structured(path) {
        seq!["- 🔍 Use `grep(\""@ + path + "\", pattern)` to validate structure"@, edit]
    } else {
        Seq::<Seq<char>>::empty()
    }) + seq!["- 🗑️ Use `deleteFile(\""@ + path + "\")` to remove if needed"@]
}

fn path_ends_with(path: &[char], suffix: &str) -> (r: bool)
    ensures
        r == ends_with(path@, suffix@),
{
    let s = chars_of(suffix);
    ends_with_exec(path, s.as_slice())
}

fn around_chars(before: &str, path: &str, after: &str) -> (r: Vec<char>)
    ensures
        r@ == before@ + path@ + after@,
{
    let mut v: Vec<char> = Vec::new();
    push_str(&mut v, before);
    push_str(&mut v, path);
    push_str(&mut v, after);
    v
}

fn step_lines(path: &str, truncated: bool) -> (r: Vec<Vec<char>>)
    ensures
        seqs_of(r@) == create_steps(path@, truncated),
{
    let p = chars_of(path);
    let ps = p.as_slice();
    let mut r: Vec<Vec<char>> = Vec::new();
    r.push(chars_of("- Content verified above (preview only)"));
    if truncated {
        r.push(around_chars("- 📖 Use `readFile(\"", path, "\")` to see full content"));
    }
    let prose = path_ends_with(ps, ".md") || path_ends_with(ps, ".txt") || path_ends_with(ps, ".rs")
        || path_ends_with(ps, ".js") || path_ends_with(ps, ".ts");
    if prose {
        r.push(around_chars("- ✏️ Use `editFile(\"", path, "\", oldText, newText)` for edits"));
    } else if path_ends_with(ps, ".json") || path_ends_with(ps, ".yaml") {
        r.push(around_chars("- 🔍 Use `grep(\"", path, "\", pattern)` to validate structure"));
        r.push(around_chars("- ✏️ Use `editFile(\"", path, "\", oldText, newText)` for edits"));
    }
    r.push(around_chars("- 🗑️ Use `deleteFile(\"", path, "\")` to remove if needed"));
    assert(seqs_of(r@) =~= create_steps(path@, truncated));
    r
}

pub fn create_next_steps(path: &str, truncated: bool) -> (r: Vec<String>)
    ensures
        string_views(r@) == create_steps(path@, truncated),
{
    crate::edit::strings_from_lines(&step_lines(path, truncated))
}

/// The reply to a created file: where it is, its size and line count, the
/// preview in a fence marked with `language`, a warning when the preview
/// was cut, and the next steps.
pub open spec fn created_message(path: Seq<char>, c: Seq<char>, language: Seq<char>) -> Seq<char> {
    "**✅ File Created**\n\n**File:** `"@ + path + "`\n**Size:** "@ + file_size_text(byte_len(c)) + "\n**Lines:** "@
        + dec(lines_of(c).len()) + "\n\n**Content:**\n```"@ + language + "\n"@ + create_preview_text(c)
        + "\n```\n\n"@ + (if create_truncated(c) {
        "⚠️ **CONTENT TRUNCATED**: Only showing first 100 lines as preview\n\n"@
    } else {
        Seq::<char>::empty()
    }) + "**Next Steps:**\n"@ + join(create_steps(path, create_truncated(c)), seq!['\n'])
}

/// What the reply to a created file reports.
pub struct CreatedFile {
    pub message: String,
    pub bytes: u64,
    pub lines: u64,
    pub truncated: bool,
}

/// The reply to a created file, with `language` naming the fence.
pub fn created_file_message_text(path: &str, content: &str, language: &str) -> (r: CreatedFile)
    requires
        byte_len(content@) <= u64::MAX,
        byte_len(content@) > 51200 ==> is_char_boundary(content@, 51200),
    ensures
        r.message@ == created_message(path@, content@, language@),
        r.bytes == byte_len(content@),
        r.lines == lines_of(content@).len(),
        r.truncated == create_truncated(content@),
{
    let cs = chars_of(content);
    let bytes = byte_len_exec(cs.as_slice()) as u64;
    let lines = split_lines(cs.as_slice());
    proof {
        crate::read::lemma_byte_len_bound(content@);
    }
    let nlines = lines.len() as u64;
    let preview = create_preview(content);
    let mut m: Vec<char> = Vec::new();
    push_str(&mut m, "**✅ File Created**\n\n**File:** `");
    push_str(&mut m, path);
    push_str(&mut m, "`\n**Size:** ");
    let size = format_file_size(bytes);
    push_str(&mut m, size.as_str());
    push_str(&mut m, "\n**Lines:** ");
    push_dec(&mut m, nlines);
    push_str(&mut m, "\n\n**Content:**\n```");
    push_str(&mut m, language);
    push_str(&mut m, "\n");
    push_str(&mut m, preview.text.as_str());
    push_str(&mut m, "\n```\n\n");
    if preview.truncated {
        push_str(&mut m, "⚠️ **CONTENT TRUNCATED**: Only showing first 100 lines as preview\n\n");
    }
    push_str(&mut m, "**Next Steps:**\n");
    let step_chars = step_lines(path, preview.truncated);
    let nl = chars_of("\n");
    proof {
        reveal_strlit("\n");
        assert(nl@ =~= seq!['\n']);
    }
    let joined = join_chars(&step_chars, nl.as_slice());
    push_chars(&mut m, joined.as_slice());
    assert(m@ =~= created_message(path@, content@, language@));
    CreatedFile { message: string_from_chars(m.as_slice()), bytes, lines: nlines, truncated: preview.truncated }
}

/// The reply to a created file, its fence marked with the language that
/// the path's extension names.
pub fn created_file_message(path: &str, content: &str) -> (r: CreatedFile)
    requires
        byte_len(content@) <= u64::MAX,
        byte_len(content@) > 51200 ==> is_char_boundary(content@, 51200),
    ensures
        exists|language: Seq<char>| is_language_name(language) && r.message@ == created_message(path@, content@, language),
        has_plain_file_name(path@) ==> r.message@ == created_message(path@, content@, plain_path_language(path@)),
        r.bytes == byte_len(content@),
        r.lines == lines_of(content@).len(),
        r.truncated == create_truncated(content@),
{
    let language = detect_language(path);
    created_file_message_text(path, content, language)
}

/// A failed write that the reply calls a permission problem.
pub fn is_permission_failure(error: &str) -> (r: bool)
    ensures
        r == (contains_seq(error@, "Permission denied"@) || contains_seq(error@, "permission"@)),
{
    let e = chars_of(error);
    contains_lit(e.as_slice(), "Permission denied") || contains_lit(e.as_slice(), "permission")
}

} // verus!
