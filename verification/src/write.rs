//! Writing a whole file: what a request must hold, the sibling name that
//! `mode=create` picks when the path is taken, and what the reply says.
use vstd::prelude::*;
use crate::text::{
    dec, push_dec, push_str, push_chars, chars_of, string_from_chars, slice_chars, has_char, contains_char, trim,
    trim_chars, contains_seq, contains_lit, str_eq,
};
use crate::edit::string_views;
use crate::sizes::{file_size_text, format_file_size};

verus! {

/// How many numbered siblings `mode=create` tries before giving up.
pub const MAX_CREATE_PATH_SUFFIX: u32 = 99;

/// An overwrite of a file with at least this many lines earns a reminder
/// that targeted edits exist.
pub const OVERWRITE_SOFT_GUARD_MIN_LINES: usize = 40;

// ---------------------------------------------------------------------------
// Numbered sibling names
// ---------------------------------------------------------------------------

/// The index of the last `c` in `s`.
pub open spec fn last_index_of(s: Seq<char>, c: char) -> Option<int>
    decreases s.len(),
{
    if s.len() == 0 {
        None
    } else if s.last() == c {
        Some(s.len() - 1)
    } else {
        last_index_of(s.drop_last(), c)
    }
}

pub proof fn lemma_last_index_of(s: Seq<char>, c: char)
    ensures
        match last_index_of(s, c) {
            Some(i) => 0 <= i < s.len() && s[i] == c && forall|j: int| i < j < s.len() ==> s[j] != c,
            None => forall|j: int| 0 <= j < s.len() ==> s[j] != c,
        },
    decreases s.len(),
{
    if s.len() > 0 {
        let t = s.drop_last();
        lemma_last_index_of(t, c);
        if s.last() != c {
            assert forall|j: int| 0 <= j < s.len() - 1 implies #[trigger] s[j] == t[j] by {}
        }
    }
}

fn rfind_char(s: &[char], c: char) -> (r: Option<usize>)
    ensures
        match (r, last_index_of(s@, c)) {
            (Some(i), Some(j)) => i == j,
            (None, None) => true,
            _ => false,
        },
{
    let mut k = s.len();
    proof {
        assert(s@.take(k as int) =~= s@);
    }
    while k > 0
        invariant
            k <= s.len(),
            last_index_of(s@, c) == last_index_of(s@.take(k as int), c),
        decreases k,
    {
        proof {
            assert(s@.take(k as int).drop_last() =~= s@.take(k - 1));
        }
        if s[k - 1] == c {
            return Some(k - 1);
        }
        k -= 1;
    }
    None
}

/// `name` with `-{n}` placed before its extension; a bare dotfile such as
/// `.env`, or a name without an extension, gets it at the end, and an
/// empty name becomes `file-{n}`.
pub open spec fn numbered_name(name: Seq<char>, n: nat) -> Seq<char> {
    let suffix = seq!['-'] + dec(n);
    if name.len() == 0 {
        "file-"@ + dec(n)
    } else if name[0] == '.' && !has_char(name.drop_first(), '.') {
        name + suffix
    } else {
        match last_index_of(name, '.') {
            Some(d) => if d > 0 {
                name.take(d) + suffix + seq!['.'] + name.skip(d + 1)
            } else {
                name + suffix
            },
            None => name + suffix,
        }
    }
}

/// Appends `-{n}` before the extension of a file name (`report.md` becomes
/// `report-1.md`, `.gitignore` becomes `.gitignore-1`).
pub fn add_numeric_suffix_to_filename(file_name: &str, n: u32) -> (r: String)
    ensures
        r@ == numbered_name(file_name@, n as nat),
{
    let name = chars_of(file_name);
    let mut out: Vec<char> = Vec::new();
    if name.len() == 0 {
        push_str(&mut out, "file-");
        push_dec(&mut out, n as u64);
        assert(out@ =~= numbered_name(file_name@, n as nat));
        return string_from_chars(out.as_slice());
    }
    let rest = slice_chars(name.as_slice(), 1, name.len());
    assert(rest@ =~= name@.drop_first());
    if name[0] == '.' && !contains_char(rest.as_slice(), '.') {
        push_chars(&mut out, name.as_slice());
        out.push('-');
        push_dec(&mut out, n as u64);
        assert(out@ =~= numbered_name(file_name@, n as nat));
        return string_from_chars(out.as_slice());
    }
    match rfind_char(name.as_slice(), '.') {
        Some(d) => {
            if d > 0 {
                proof {
                    lemma_last_index_of(name@, '.');
                }
                let stem = slice_chars(name.as_slice(), 0, d);
                let ext = slice_chars(name.as_slice(), d + 1, name.len());
                push_chars(&mut out, stem.as_slice());
                out.push('-');
                push_dec(&mut out, n as u64);
                out.push('.');
                push_chars(&mut out, ext.as_slice());
                assert(stem@ =~= name@.take(d as int));
                assert(ext@ =~= name@.skip(d + 1));
            } else {
                push_chars(&mut out, name.as_slice());
                out.push('-');
                push_dec(&mut out, n as u64);
            }
        },
        None => {
            push_chars(&mut out, name.as_slice());
            out.push('-');
            push_dec(&mut out, n as u64);
        },
    }
    assert(out@ =~= numbered_name(file_name@, n as nat));
    string_from_chars(out.as_slice())
}

/// The index of the last path separator (`/` or `\`) in `s`.
pub open spec fn last_separator(s: Seq<char>) -> Option<int>
    decreases s.len(),
{
    if s.len() == 0 {
        None
    } else if s.last() == '/' || s.last() == '\\' {
        Some(s.len() - 1)
    } else {
        last_separator(s.drop_last())
    }
}

/// `path` with its final segment replaced by `name`, keeping the
/// separator it used.
pub open spec fn sibling_path(path: Seq<char>, name: Seq<char>) -> Seq<char> {
    match last_separator(path) {
        Some(i) => path.take(i + 1) + name,
        None => name,
    }
}

/// Replaces only the final segment of `path_str` by `new_file_name`.
pub fn sibling_display_path(path_str: &str, new_file_name: &str) -> (r: String)
    ensures
        r@ == sibling_path(path_str@, new_file_name@),
{
    let p = chars_of(path_str);
    let mut k = p.len();
    proof {
        assert(p@.take(k as int) =~= p@);
    }
    while k > 0
        invariant
            k <= p.len(),
            last_separator(p@) == last_separator(p@.take(k as int)),
        ensures
            k <= p.len(),
            last_separator(p@) == last_separator(p@.take(k as int)),
            k > 0 ==> (p@[k - 1] == '/' || p@[k - 1] == '\\'),
        decreases k,
    {
        proof {
            assert(p@.take(k as int).drop_last() =~= p@.take(k - 1));
        }
        if p[k - 1] == '/' || p[k - 1] == '\\' {
            break;
        }
        k -= 1;
    }
    let mut out: Vec<char> = Vec::new();
    if k > 0 {
        proof {
            assert(p@.take(k as int).drop_last() =~= p@.take(k - 1));
        }
        let head = slice_chars(p.as_slice(), 0, k);
        push_chars(&mut out, head.as_slice());
        assert(head@ =~= p@.take(k as int));
    }
    push_str(&mut out, new_file_name);
    assert(out@ =~= sibling_path(path_str@, new_file_name@));
    string_from_chars(out.as_slice())
}

/// The next sibling that `mode=create` tries, or the end of the search.
pub enum CreateProbe {
    Candidate { suffix: u32, file_name: String, display_path: String },
    Exhausted { message: String },
}

/// The message when every numbered sibling is taken.
pub open spec fn exhausted_message(requested: Seq<char>) -> Seq<char> {
    "Could not allocate a unique path for '"@ + requested
        + "': tried suffixes -1 through -99 and all candidates already exist"@
}

/// Step `n` (from 1) of the search for a free sibling of an existing
/// file: the candidate `name-n.ext`, shown in the style of the requested
/// path, while `n` is at most 99.
pub fn create_probe(requested_path: &str, original_name: &str, n: u32) -> (r: CreateProbe)
    requires
        n >= 1,
    ensures
        n <= MAX_CREATE_PATH_SUFFIX ==> (r matches CreateProbe::Candidate { suffix, file_name, display_path }
            && suffix == n && file_name@ == numbered_name(original_name@, n as nat)
            && display_path@ == sibling_path(requested_path@, numbered_name(original_name@, n as nat))),
        n > MAX_CREATE_PATH_SUFFIX ==> (r matches CreateProbe::Exhausted { message }
            && message@ == exhausted_message(requested_path@)),
{
    if n > MAX_CREATE_PATH_SUFFIX {
        let mut out: Vec<char> = Vec::new();
        push_str(&mut out, "Could not allocate a unique path for '");
        push_str(&mut out, requested_path);
        push_str(&mut out, "': tried suffixes -1 through -99 and all candidates already exist");
        assert(out@ =~= exhausted_message(requested_path@));
        return CreateProbe::Exhausted { message: string_from_chars(out.as_slice()) };
    }
    let file_name = add_numeric_suffix_to_filename(original_name, n);
    let display_path = sibling_display_path(requested_path, file_name.as_str());
    CreateProbe::Candidate { suffix: n, file_name, display_path }
}

/// The guidance of the refusal when every numbered sibling is taken.
pub open spec fn exhausted_guidance(path: Seq<char>, edit_tool: Seq<char>) -> Seq<Seq<char>> {
    seq![
        "Choose a different path, or set \"mode\": \"overwrite\" to replace \""@ + path + "\"."@,
        "Use workspace__listDirectory on the parent of \""@ + path + "\" to see existing names."@,
        "Use "@ + edit_tool + " for targeted edits to \""@ + path + "\" instead of rewriting the whole file."@,
    ]
}

/// What to do when no free sibling was found (`edit_tool` names the tool
/// for targeted edits).
pub fn create_exhausted_guidance(path: &str, edit_tool: &str) -> (r: Vec<String>)
    ensures
        string_views(r@) == exhausted_guidance(path@, edit_tool@),
{
    let mut a: Vec<char> = Vec::new();
    push_str(&mut a, "Choose a different path, or set \"mode\": \"overwrite\" to replace \"");
    push_str(&mut a, path);
    push_str(&mut a, "\".");
    let mut b: Vec<char> = Vec::new();
    push_str(&mut b, "Use workspace__listDirectory on the parent of \"");
    push_str(&mut b, path);
    push_str(&mut b, "\" to see existing names.");
    let mut c: Vec<char> = Vec::new();
    push_str(&mut c, "Use ");
    push_str(&mut c, edit_tool);
    push_str(&mut c, " for targeted edits to \"");
    push_str(&mut c, path);
    push_str(&mut c, "\" instead of rewriting the whole file.");
    let mut r: Vec<String> = Vec::new();
    r.push(string_from_chars(a.as_slice()));
    r.push(string_from_chars(b.as_slice()));
    r.push(string_from_chars(c.as_slice()));
    assert(string_views(r@) =~= exhausted_guidance(path@, edit_tool@));
    r
}

// ---------------------------------------------------------------------------
// The request
// ---------------------------------------------------------------------------

/// Why a write request is refused before anything is touched.
pub enum WriteRefusal {
    /// `path` or `content` is absent (or not a string); names the field.
    MissingParameter { field: String },
    /// `path` is blank.
    EmptyPath,
    /// `path` holds `..`.
    PathTraversal,
}

/// A write request that passed the checks: the trimmed path and the mode
/// (`create` when none was given).
pub struct WriteRequest {
    pub path: String,
    pub mode: String,
}

/// The outcome of the checks on a request: the trimmed path and mode, or
/// the first failed check (`Err` holds the name of a missing field, or
/// the empty sequence for a blank path, or `..` for a traversal).
pub open spec fn write_request_outcome(path: Option<Seq<char>>, has_content: bool, mode: Option<Seq<char>>) -> Result<
    (Seq<char>, Seq<char>),
    Seq<char>,
> {
    match path {
        None => Err("path"@),
        Some(p) => if trim(p).len() == 0 {
            Err(Seq::<char>::empty())
        } else if contains_seq(trim(p), ".."@) {
            Err(".."@)
        } else if !has_content {
            Err("content"@)
        } else {
            Ok((trim(p), match mode { Some(m) => m, None => "create"@ }))
        },
    }
}

/// The refusal that stands for each failed check.
pub open spec fn refusal_code(r: WriteRefusal) -> Seq<char> {
    match r {
        WriteRefusal::MissingParameter { field } => field@,
        WriteRefusal::EmptyPath => Seq::<char>::empty(),
        WriteRefusal::PathTraversal => ".."@,
    }
}

/// Checks a write request (each argument `None` when absent or not a
/// string).
pub fn parse_write_request(path: Option<&str>, content: Option<&str>, mode: Option<&str>) -> (r: Result<
    WriteRequest,
    WriteRefusal,
>)
    ensures
        match (r, write_request_outcome(opt_view(path), content is Some, opt_view(mode))) {
            (Ok(q), Ok((p, m))) => q.path@ == p && q.mode@ == m,
            (Err(e), Err(code)) => refusal_code(e) == code && (e is MissingParameter ==> code == "path"@ || code
                == "content"@),
            _ => false,
        },
{
    let p = match path {
        None => {
            return Err(WriteRefusal::MissingParameter { field: "path".to_string() });
        },
        Some(p) => p,
    };
    let pc = chars_of(p);
    let t = trim_chars(pc.as_slice());
    if t.len() == 0 {
        return Err(WriteRefusal::EmptyPath);
    }
    if contains_lit(t.as_slice(), "..") {
        return Err(WriteRefusal::PathTraversal);
    }
    if content.is_none() {
        return Err(WriteRefusal::MissingParameter { field: "content".to_string() });
    }
    let m = match mode {
        Some(m) => m.to_string(),
        None => "create".to_string(),
    };
    Ok(WriteRequest { path: string_from_chars(t.as_slice()), mode: m })
}

pub open spec fn opt_view(o: Option<&str>) -> Option<Seq<char>> {
    match o {
        Some(s) => Some(s@),
        None => None,
    }
}

impl WriteRefusal {
    /// The message and guidance of a blank path or a traversal; a missing
    /// field is answered by the tool layer's missing-parameter reply.
    pub fn guided_message(&self) -> (r: Option<(String, Vec<String>)>)
        ensures
            match self {
                WriteRefusal::MissingParameter { .. } => r is None,
                WriteRefusal::EmptyPath => r matches Some((m, g)) && m@ == "Path parameter cannot be empty"@
                    && string_views(g@) == seq![
                    "Provide a file path (relative paths resolve from the workspace)"@,
                    "Examples: {\"path\": \"src/main.rs\"} or {\"path\": \"/tmp/file.txt\"}"@,
                    "Use workspace__listDirectory('.') to explore available paths"@,
                ],
                WriteRefusal::PathTraversal => r matches Some((m, g)) && m@
                    == "Path traversal patterns (..) are not allowed"@ && string_views(g@) == seq![
                    "Use a normal file path without '..' traversal segments"@,
                    "Example: 'src/main.rs' instead of '../src/main.rs'"@,
                    "Use workspace__listDirectory to explore available paths"@,
                ],
            },
    {
        match self {
            WriteRefusal::MissingParameter { .. } => None,
            WriteRefusal::EmptyPath => {
                let mut g: Vec<String> = Vec::new();
                g.push("Provide a file path (relative paths resolve from the workspace)".to_string());
                g.push("Examples: {\"path\": \"src/main.rs\"} or {\"path\": \"/tmp/file.txt\"}".to_string());
                g.push("Use workspace__listDirectory('.') to explore available paths".to_string());
                assert(string_views(g@) =~= seq![
                    "Provide a file path (relative paths resolve from the workspace)"@,
                    "Examples: {\"path\": \"src/main.rs\"} or {\"path\": \"/tmp/file.txt\"}"@,
                    "Use workspace__listDirectory('.') to explore available paths"@,
                ]);
                Some(("Path parameter cannot be empty".to_string(), g))
            },
            WriteRefusal::PathTraversal => {
                let mut g: Vec<String> = Vec::new();
                g.push("Use a normal file path without '..' traversal segments".to_string());
                g.push("Example: 'src/main.rs' instead of '../src/main.rs'".to_string());
                g.push("Use workspace__listDirectory to explore available paths".to_string());
                assert(string_views(g@) =~= seq![
                    "Use a normal file path without '..' traversal segments"@,
                    "Example: 'src/main.rs' instead of '../src/main.rs'"@,
                    "Use workspace__listDirectory to explore available paths"@,
                ]);
                Some(("Path traversal patterns (..) are not allowed".to_string(), g))
            },
        }
    }
}

// ---------------------------------------------------------------------------
// The reply
// ---------------------------------------------------------------------------

/// What a successful write did: written to a numbered sibling, appended,
/// overwrote an existing file, or created one.
pub open spec fn write_action(path_adjusted: bool, existed: bool, mode: Seq<char>) -> Seq<char> {
    if path_adjusted {
        "created_alternate_path"@
    } else if mode == "append"@ {
        "appended"@
    } else if existed && mode == "overwrite"@ {
        "overwritten"@
    } else {
        "created"@
    }
}

pub fn write_action_name(path_adjusted: bool, existed: bool, mode: &str) -> (r: &'static str)
    ensures
        r@ == write_action(path_adjusted, existed, mode@),
{
    if path_adjusted {
        "created_alternate_path"
    } else if str_eq(mode, "append") {
        "appended"
    } else if existed && str_eq(mode, "overwrite") {
        "overwritten"
    } else {
        "created"
    }
}

/// The first line of the reply.
pub open spec fn write_header(path_adjusted: bool, existed: bool, mode: Seq<char>) -> Seq<char> {
    if path_adjusted {
        "**⚠️ New File Created at Alternate Path (requested path already existed)**"@
    } else if existed && mode == "append"@ {
        "**✅ Content Appended Successfully**"@
    } else if existed && mode == "overwrite"@ {
        "**✅ File Overwritten Successfully**"@
    } else {
        "**✅ New File Created Successfully**"@
    }
}

/// The body when the write went to a numbered sibling.
pub open spec fn adjusted_body(
    requested: Seq<char>,
    written: Seq<char>,
    size: Seq<char>,
    lines: nat,
    edit_tool: Seq<char>,
) -> Seq<char> {
    "**What happened:** `mode` was `\"create\"` (default), but `"@ + requested
        + "` already existed.\nTo avoid discarding your generated content and overwriting the existing file, the write was redirected to a new sibling path.\n\n**Requested path (unchanged):** `"@
        + requested + "`\n**Actually written to:** `"@ + written + "`\n**Total Size:** "@ + size
        + "\n**Total Lines:** "@ + dec(lines) + "\n\nSubsequent reads, edits, or shell commands on `"@ + requested
        + "` still use the previous file. Use `"@ + written
        + "` for this new content.\n\n**Correct usage reminder:**\n- To **replace** an existing file: `writeFile` with `\"mode\": \"overwrite\"`\n- To **add to the end** of an existing file: `\"mode\": \"append\"`\n- To **edit parts** of an existing file: use `"@
        + edit_tool
        + "` (not another `writeFile` create)\n- To **create a new file** when unsure the path is free: pick a unique name, or accept this auto-suffix behavior\n\n"@
}

/// The opening of the reply: the header, where the file is and how big it
/// now is, and for an append how much was added. (The diff or preview
/// that follows is built elsewhere.)
pub open spec fn write_summary(
    path_adjusted: bool,
    existed: bool,
    mode: Seq<char>,
    requested: Seq<char>,
    written: Seq<char>,
    total_bytes: nat,
    total_lines: nat,
    appended_bytes: nat,
    appended_lines: nat,
    edit_tool: Seq<char>,
) -> Seq<char> {
    write_header(path_adjusted, existed, mode) + "\n\n"@ + (if path_adjusted {
        adjusted_body(requested, written, file_size_text(total_bytes), total_lines, edit_tool)
    } else {
        "**File:** `"@ + written + "`\n**Total Size:** "@ + file_size_text(total_bytes) + "\n**Total Lines:** "@
            + dec(total_lines) + "\n\n"@
    }) + (if mode == "append"@ {
        "**Appended:** "@ + file_size_text(appended_bytes) + ", "@ + dec(appended_lines)
            + " line(s)\n**Note:** Append is verbatim; prefix content with `\\n` when adding after an existing line.\n\n"@
    } else {
        Seq::<char>::empty()
    })
}

fn push_adjusted_body(out: &mut Vec<char>, requested: &str, written: &str, size: &str, lines: u64, edit_tool: &str)
    ensures
        final(out)@ == old(out)@ + adjusted_body(requested@, written@, size@, lines as nat, edit_tool@),
{
    push_str(out, "**What happened:** `mode` was `\"create\"` (default), but `");
    push_str(out, requested);
    push_str(out, "` already existed.\nTo avoid discarding your generated content and overwriting the existing file, the write was redirected to a new sibling path.\n\n**Requested path (unchanged):** `");
    push_str(out, requested);
    push_str(out, "`\n**Actually written to:** `");
    push_str(out, written);
    push_str(out, "`\n**Total Size:** ");
    push_str(out, size);
    push_str(out, "\n**Total Lines:** ");
    push_dec(out, lines);
    push_str(out, "\n\nSubsequent reads, edits, or shell commands on `");
    push_str(out, requested);
    push_str(out, "` still use the previous file. Use `");
    push_str(out, written);
    push_str(out, "` for this new content.\n\n**Correct usage reminder:**\n- To **replace** an existing file: `writeFile` with `\"mode\": \"overwrite\"`\n- To **add to the end** of an existing file: `\"mode\": \"append\"`\n- To **edit parts** of an existing file: use `");
    push_str(out, edit_tool);
    push_str(out, "` (not another `writeFile` create)\n- To **create a new file** when unsure the path is free: pick a unique name, or accept this auto-suffix behavior\n\n");
    assert(out@ =~= old(out)@ + adjusted_body(requested@, written@, size@, lines as nat, edit_tool@));
}

/// The opening of the reply to a successful write (`edit_tool` names the
/// tool for targeted edits).
pub fn write_summary_text(
    path_adjusted: bool,
    existed: bool,
    mode: &str,
    requested: &str,
    written: &str,
    total_bytes: u64,
    total_lines: u64,
    appended_bytes: u64,
    appended_lines: u64,
    edit_tool: &str,
) -> (r: String)
    ensures
        r@ == write_summary(
            path_adjusted,
            existed,
            mode@,
            requested@,
            written@,
            total_bytes as nat,
            total_lines as nat,
            appended_bytes as nat,
            appended_lines as nat,
            edit_tool@,
        ),
{
    let mut out: Vec<char> = Vec::new();
    let append = str_eq(mode, "append");
    if path_adjusted {
        push_str(&mut out, "**⚠️ New File Created at Alternate Path (requested path already existed)**");
    } else if existed && append {
        push_str(&mut out, "**✅ Content Appended Successfully**");
    } else if existed && str_eq(mode, "overwrite") {
        push_str(&mut out, "**✅ File Overwritten Successfully**");
    } else {
        push_str(&mut out, "**✅ New File Created Successfully**");
    }
    assert(out@ == write_header(path_adjusted, existed, mode@));
    push_str(&mut out, "\n\n");
    let ghost head = out@;
    let size = format_file_size(total_bytes);
    if path_adjusted {
        push_adjusted_body(&mut out, requested, written, size.as_str(), total_lines, edit_tool);
    } else {
        push_str(&mut out, "**File:** `");
        push_str(&mut out, written);
        push_str(&mut out, "`\n**Total Size:** ");
        push_str(&mut out, size.as_str());
        push_str(&mut out, "\n**Total Lines:** ");
        push_dec(&mut out, total_lines);
        push_str(&mut out, "\n\n");
        assert(out@ =~= head + ("**File:** `"@ + written@ + "`\n**Total Size:** "@ + file_size_text(total_bytes as nat)
            + "\n**Total Lines:** "@ + dec(total_lines as nat) + "\n\n"@));
    }
    let ghost mid = out@;
    if append {
        let added = format_file_size(appended_bytes);
        push_str(&mut out, "**Appended:** ");
        push_str(&mut out, added.as_str());
        push_str(&mut out, ", ");
        push_dec(&mut out, appended_lines);
        push_str(&mut out, " line(s)\n**Note:** Append is verbatim; prefix content with `\\n` when adding after an existing line.\n\n");
        assert(out@ =~= mid + ("**Appended:** "@ + file_size_text(appended_bytes as nat) + ", "@ + dec(appended_lines as nat)
            + " line(s)\n**Note:** Append is verbatim; prefix content with `\\n` when adding after an existing line.\n\n"@));
    } else {
        assert(out@ =~= mid + Seq::<char>::empty());
    }
    assert(out@ =~= write_summary(
        path_adjusted,
        existed,
        mode@,
        requested@,
        written@,
        total_bytes as nat,
        total_lines as nat,
        appended_bytes as nat,
        appended_lines as nat,
        edit_tool@,
    ));
    string_from_chars(out.as_slice())
}

/// The next steps listed under a successful write.
pub open spec fn write_steps(
    path_adjusted: bool,
    requested: Seq<char>,
    written: Seq<char>,
    preview_truncated: bool,
    total_lines: nat,
    existed: bool,
    mode: Seq<char>,
    previous_lines: nat,
    edit_tool: Seq<char>,
) -> Seq<Seq<char>> {
    (if path_adjusted {
        seq![
            "Written path: \""@ + written + "\" — requested \""@ + requested
                + "\" was not modified. Continue with \""@ + written + "\" for subsequent operations."@,
            "To replace \""@ + requested + "\", call workspace__writeFile with \"mode\": \"overwrite\". To edit in place, use "@
                + edit_tool + " or mode=\"append\"."@,
        ]
    } else {
        Seq::<Seq<char>>::empty()
    }) + (if preview_truncated {
        seq!["Preview truncated; full file has "@ + dec(total_lines) + " line(s) at \""@ + written + "\"."@]
    } else {
        Seq::<Seq<char>>::empty()
    }) + (if existed && mode == "overwrite"@ && previous_lines >= OVERWRITE_SOFT_GUARD_MIN_LINES {
        seq![
            "mode=\"overwrite\" replaced the entire file (40+ lines); partial line edits are handled by "@ + edit_tool
                + ", not overwrite."@,
        ]
    } else {
        Seq::<Seq<char>>::empty()
    })
}

/// Lists the next steps under a successful write.
pub fn write_next_steps(
    path_adjusted: bool,
    requested: &str,
    written: &str,
    preview_truncated: bool,
    total_lines: u64,
    existed: bool,
    mode: &str,
    previous_lines: usize,
    edit_tool: &str,
) -> (r: Vec<String>)
    ensures
        string_views(r@) == write_steps(
            path_adjusted,
            requested@,
            written@,
            preview_truncated,
            total_lines as nat,
            existed,
            mode@,
            previous_lines as nat,
            edit_tool@,
        ),
{
    let mut r: Vec<String> = Vec::new();
    if path_adjusted {
        let mut a: Vec<char> = Vec::new();
        push_str(&mut a, "Written path: \"");
        push_str(&mut a, written);
        push_str(&mut a, "\" — requested \"");
        push_str(&mut a, requested);
        push_str(&mut a, "\" was not modified. Continue with \"");
        push_str(&mut a, written);
        push_str(&mut a, "\" for subsequent operations.");
        let mut b: Vec<char> = Vec::new();
        push_str(&mut b, "To replace \"");
        push_str(&mut b, requested);
        push_str(&mut b, "\", call workspace__writeFile with \"mode\": \"overwrite\". To edit in place, use ");
        push_str(&mut b, edit_tool);
        push_str(&mut b, " or mode=\"append\".");
        r.push(string_from_chars(a.as_slice()));
        r.push(string_from_chars(b.as_slice()));
    }
    let ghost first = string_views(r@);
    if preview_truncated {
        let mut c: Vec<char> = Vec::new();
        push_str(&mut c, "Preview truncated; full file has ");
        push_dec(&mut c, total_lines);
        push_str(&mut c, " line(s) at \"");
        push_str(&mut c, written);
        push_str(&mut c, "\".");
        r.push(string_from_chars(c.as_slice()));
    }
    let ghost second = string_views(r@);
    if existed && str_eq(mode, "overwrite") && previous_lines >= OVERWRITE_SOFT_GUARD_MIN_LINES {
        let mut d: Vec<char> = Vec::new();
        push_str(&mut d, "mode=\"overwrite\" replaced the entire file (40+ lines); partial line edits are handled by ");
        push_str(&mut d, edit_tool);
        push_str(&mut d, ", not overwrite.");
        r.push(string_from_chars(d.as_slice()));
    }
    assert(string_views(r@) =~= write_steps(
        path_adjusted,
        requested@,
        written@,
        preview_truncated,
        total_lines as nat,
        existed,
        mode@,
        previous_lines as nat,
        edit_tool@,
    ));
    r
}

} // verus!
