//! Small workspace helpers: path arguments, error classification,
//! language names and plain diffs.
use vstd::prelude::*;
use crate::text::{chars_of, contains_seq, dec, join, join_chars, lines_of, push_chars, push_dec, push_str, seqs_of, split_lines, string_from_chars, trim, trim_chars};
use crate::edit::string_views;
use crate::write::last_index_of;

verus! {

// ---------------------------------------------------------------------------
// Path arguments
// ---------------------------------------------------------------------------

/// The path argument, or the default when it is omitted, trimmed; blank
/// paths are refused.
pub open spec fn normalized_path(path: Option<Seq<char>>, default_path: Seq<char>) -> Result<Seq<char>, Seq<char>> {
    let p = match path {
        Some(p) => p,
        None => default_path,
    };
    if trim(p).len() == 0 {
        Err("Path parameter cannot be empty"@)
    } else {
        Ok(trim(p))
    }
}

pub open spec fn opt_str_view(o: Option<&str>) -> Option<Seq<char>> {
    match o {
        Some(s) => Some(s@),
        None => None,
    }
}

pub open spec fn result_view(r: Result<String, String>) -> Result<Seq<char>, Seq<char>> {
    match r {
        Ok(s) => Ok(s@),
        Err(e) => Err(e@),
    }
}

/// Normalize a workspace path argument from tool input (see
/// `normalized_path`).
pub fn normalize_workspace_path_input(path: Option<&str>, default_path: &str) -> (r: Result<String, String>)
    ensures
        result_view(r) == normalized_path(opt_str_view(path), default_path@),
{
    let p = match path {
        Some(p) => p,
        None => default_path,
    };
    let t = trim_chars(chars_of(p).as_slice());
    if t.len() == 0 {
        return Err("Path parameter cannot be empty".to_string());
    }
    Ok(string_from_chars(t.as_slice()))
}

/// The outcome of a path check made by the workspace's security
/// validator: the path on success, its complaint otherwise; refusals are
/// reported as security errors.
pub open spec fn security_outcome(checked: Result<Seq<char>, Seq<char>>) -> Result<Seq<char>, Seq<char>> {
    match checked {
        Ok(p) => Ok(p),
        Err(e) => Err("Security error: "@ + e),
    }
}

fn security_error(checked: Result<String, String>) -> (r: Result<String, String>)
    ensures
        result_view(r) == security_outcome(result_view(checked)),
{
    match checked {
        Ok(p) => Ok(p),
        Err(e) => {
            let mut m: Vec<char> = Vec::new();
            push_str(&mut m, "Security error: ");
            push_str(&mut m, e.as_str());
            Err(string_from_chars(m.as_slice()))
        },
    }
}

/// Report the security validator's verdict on a path to read.
pub fn validate_path_with_error(checked: Result<String, String>) -> (r: Result<String, String>)
    ensures
        result_view(r) == security_outcome(result_view(checked)),
{
    security_error(checked)
}

/// Report the security validator's verdict on a path to write (the
/// validator also refuses reserved file names there).
pub fn validate_path_with_error_for_write(checked: Result<String, String>) -> (r: Result<String, String>)
    ensures
        result_view(r) == security_outcome(result_view(checked)),
{
    security_error(checked)
}

// ---------------------------------------------------------------------------
// I/O errors
// ---------------------------------------------------------------------------

/// What the classification of an I/O error looks at: whether its kind is
/// "not found", and its message.
pub struct IoErrorSummary {
    pub kind_is_not_found: bool,
    pub message: String,
}

/// An error means "not found" by its kind or by its message.
pub open spec fn not_found_error(e: IoErrorSummary) -> bool {
    e.kind_is_not_found || contains_seq(e.message@, "No such file"@) || contains_seq(e.message@, "not found"@)
}

/// Detect "not found" errors without depending on localized OS error strings.
pub fn is_not_found_io_error(error: &IoErrorSummary) -> (r: bool)
    ensures
        r == not_found_error(*error),
{
    if error.kind_is_not_found {
        return true;
    }
    let m = chars_of(error.message.as_str());
    crate::text::contains_lit(m.as_slice(), "No such file") || crate::text::contains_lit(m.as_slice(), "not found")
}

// ---------------------------------------------------------------------------
// Languages
// ---------------------------------------------------------------------------

/// The highlighting name for a file extension, or the empty string.
pub open spec fn language_for(ext: Seq<char>) -> Seq<char> {
    if ext == "rs"@ { "rust"@ }
    else if ext == "ts"@ || ext == "tsx"@ { "typescript"@ }
    else if ext == "js"@ || ext == "jsx"@ { "javascript"@ }
    else if ext == "py"@ { "python"@ }
    else if ext == "md"@ { "markdown"@ }
    else if ext == "json"@ { "json"@ }
    else if ext == "yaml"@ || ext == "yml"@ { "yaml"@ }
    else if ext == "toml"@ { "toml"@ }
    else if ext == "sh"@ { "bash"@ }
    else if ext == "ps1"@ { "powershell"@ }
    else if ext == "html"@ { "html"@ }
    else if ext == "css"@ { "css"@ }
    else if ext == "go"@ { "go"@ }
    else if ext == "java"@ { "java"@ }
    else if ext == "c"@ { "c"@ }
    else if ext == "cpp"@ || ext == "cc"@ || ext == "cxx"@ { "cpp"@ }
    else if ext == "cs"@ { "csharp"@ }
    else if ext == "rb"@ { "ruby"@ }
    else if ext == "php"@ { "php"@ }
    else if ext == "swift"@ { "swift"@ }
    else if ext == "kt"@ || ext == "kts"@ { "kotlin"@ }
    else if ext == "sql"@ { "sql"@ }
    else if ext == "xml"@ { "xml"@ }
    else if ext == "txt"@ || ext == "log"@ { "text"@ }
    else { ""@ }
}

/// The highlighting name for a file extension.
pub fn language_for_extension(ext: &str) -> (r: &'static str)
    ensures
        r@ == language_for(ext@),
{
    let e = chars_of(ext);
    let s = e.as_slice();
    if crate::text::chars_eq(s, chars_of("rs").as_slice()) { "rust" }
    else if crate::text::chars_eq(s, chars_of("ts").as_slice()) || crate::text::chars_eq(s, chars_of("tsx").as_slice()) { "typescript" }
    else if crate::text::chars_eq(s, chars_of("js").as_slice()) || crate::text::chars_eq(s, chars_of("jsx").as_slice()) { "javascript" }
    else if crate::text::chars_eq(s, chars_of("py").as_slice()) { "python" }
    else if crate::text::chars_eq(s, chars_of("md").as_slice()) { "markdown" }
    else if crate::text::chars_eq(s, chars_of("json").as_slice()) { "json" }
    else if crate::text::chars_eq(s, chars_of("yaml").as_slice()) || crate::text::chars_eq(s, chars_of("yml").as_slice()) { "yaml" }
    else if crate::text::chars_eq(s, chars_of("toml").as_slice()) { "toml" }
    else if crate::text::chars_eq(s, chars_of("sh").as_slice()) { "bash" }
    else if crate::text::chars_eq(s, chars_of("ps1").as_slice()) { "powershell" }
    else if crate::text::chars_eq(s, chars_of("html").as_slice()) { "html" }
    else if crate::text::chars_eq(s, chars_of("css").as_slice()) { "css" }
    else if crate::text::chars_eq(s, chars_of("go").as_slice()) { "go" }
    else if crate::text::chars_eq(s, chars_of("java").as_slice()) { "java" }
    else if crate::text::chars_eq(s, chars_of("c").as_slice()) { "c" }
    else if crate::text::chars_eq(s, chars_of("cpp").as_slice()) || crate::text::chars_eq(s, chars_of("cc").as_slice()) || crate::text::chars_eq(s, chars_of("cxx").as_slice()) { "cpp" }
    else if crate::text::chars_eq(s, chars_of("cs").as_slice()) { "csharp" }
    else if crate::text::chars_eq(s, chars_of("rb").as_slice()) { "ruby" }
    else if crate::text::chars_eq(s, chars_of("php").as_slice()) { "php" }
    else if crate::text::chars_eq(s, chars_of("swift").as_slice()) { "swift" }
    else if crate::text::chars_eq(s, chars_of("kt").as_slice()) || crate::text::chars_eq(s, chars_of("kts").as_slice()) { "kotlin" }
    else if crate::text::chars_eq(s, chars_of("sql").as_slice()) { "sql" }
    else if crate::text::chars_eq(s, chars_of("xml").as_slice()) { "xml" }
    else if crate::text::chars_eq(s, chars_of("txt").as_slice()) || crate::text::chars_eq(s, chars_of("log").as_slice()) { "text" }
    else { "" }
}

/// One of the names `language_for` gives.
pub open spec fn is_language_name(l: Seq<char>) -> bool {
    ||| l == "rust"@ ||| l == "typescript"@ ||| l == "javascript"@ ||| l == "python"@
    ||| l == "markdown"@ ||| l == "json"@ ||| l == "yaml"@ ||| l == "toml"@ ||| l == "bash"@
    ||| l == "powershell"@ ||| l == "html"@ ||| l == "css"@ ||| l == "go"@ ||| l == "java"@
    ||| l == "c"@ ||| l == "cpp"@ ||| l == "csharp"@ ||| l == "ruby"@ ||| l == "php"@
    ||| l == "swift"@ ||| l == "kotlin"@ ||| l == "sql"@ ||| l == "xml"@ ||| l == "text"@
    ||| l == ""@
}

/// The text after the last `/` of a path (all of it when it has none).
pub open spec fn final_component(p: Seq<char>) -> Seq<char> {
    match last_index_of(p, '/') {
        Some(i) => p.skip(i + 1),
        None => p,
    }
}

/// A path whose file name is the same on every platform: it holds no `\`
/// and no `:`, does not begin with `//`, and its text after the last `/` is
/// a name (not empty, `.` or `..`).
pub open spec fn has_plain_file_name(p: Seq<char>) -> bool {
    &&& !crate::text::has_char(p, '\\')
    &&& !crate::text::has_char(p, ':')
    &&& !crate::text::starts_with(p, "//"@)
    &&& final_component(p).len() > 0
    &&& final_component(p) != "."@
    &&& final_component(p) != ".."@
}

/// The extension that `Path::extension` documents for a file name: none
/// without a `.`, none for a name whose only `.` is its first character,
/// else the text after the final `.`.
pub open spec fn documented_extension(name: Seq<char>) -> Option<Seq<char>> {
    match last_index_of(name, '.') {
        Some(i) => if i == 0 { None } else { Some(name.skip(i + 1)) },
        None => None,
    }
}

/// The extension of the last component of a path, as `Path::extension`
/// splits it on this platform (which characters separate components
/// depends on the platform). For a path whose file name is the same on
/// every platform, the extension is the one the documentation describes.
#[verifier::external_body]
fn path_extension(path: &str) -> (r: Option<String>)
    ensures
        r matches Some(e) ==> !crate::text::has_char(e@, '.'),
        has_plain_file_name(path@) ==> match r {
            Some(e) => documented_extension(final_component(path@)) == Some(e@),
            None => documented_extension(final_component(path@)) is None,
        },
{
    std::path::Path::new(path).extension().and_then(|e| e.to_str()).map(|e| e.to_string())
}

/// The highlighting name of a path whose file name is the same on every
/// platform: the one of its documented extension.
pub open spec fn plain_path_language(path: Seq<char>) -> Seq<char> {
    match documented_extension(final_component(path)) {
        Some(e) => language_for(e),
        None => ""@,
    }
}

/// Detect the highlighting name of a file from its extension (the empty
/// string for unknown extensions and for paths without one). For a path
/// whose file name is the same on every platform, the name is the one of
/// its documented extension.
pub fn detect_language(path: &str) -> (r: &'static str)
    ensures
        is_language_name(r@),
        has_plain_file_name(path@) ==> r@ == plain_path_language(path@),
{
    match path_extension(path) {
        Some(e) => language_for_extension(e.as_str()),
        None => "",
    }
}

// ---------------------------------------------------------------------------
// Diffs
// ---------------------------------------------------------------------------

pub const MAX_DIFF_LINES: usize = 50usize;

/// The shown lines of one side of a whole-file diff: at most 50 lines with
/// the given marker, then a note counting the rest.
pub open spec fn diff_side(ls: Seq<Seq<char>>, marker: Seq<char>, what: Seq<char>) -> Seq<Seq<char>> {
    let shown = if ls.len() <= 50 { ls.len() } else { 50 };
    Seq::new(shown, |i: int| marker + ls[i]) + if ls.len() > 50 {
        seq!["... "@ + dec((ls.len() - 50) as nat) + " more "@ + what + " lines omitted"@]
    } else {
        Seq::empty()
    }
}

/// The lines of a whole-file diff.
pub open spec fn file_diff_lines(old: Seq<char>, new: Seq<char>) -> Seq<Seq<char>> {
    let o = lines_of(old);
    let n = lines_of(new);
    let added = if n.len() >= o.len() { n.len() - o.len() } else { 0 };
    let removed = if o.len() >= n.len() { o.len() - n.len() } else { 0 };
    seq![
        "**Changes:** "@ + dec(added as nat) + " line(s) added, "@ + dec(removed as nat) + " line(s) removed\n"@,
        "**Diff:**"@,
        "```diff"@,
        "@@ -1,"@ + dec(o.len()) + " +1,"@ + dec(n.len()) + " @@"@,
    ] + diff_side(o, "- "@, "removed"@) + diff_side(n, "+ "@, "added"@) + seq!["```"@]
}

fn push_line(out: &mut Vec<Vec<char>>, l: Vec<char>)
    ensures
        seqs_of(final(out)@) == seqs_of(old(out)@).push(l@),
{
    out.push(l);
    assert(seqs_of(out@) =~= seqs_of(old(out)@).push(l@));
}

fn literal_line(s: &str) -> (r: Vec<char>)
    ensures
        r@ == s@,
{
    chars_of(s)
}

fn push_diff_side(out: &mut Vec<Vec<char>>, ls: &Vec<Vec<char>>, marker: &str, what: &str)
    ensures
        seqs_of(final(out)@) == seqs_of(old(out)@) + diff_side(seqs_of(ls@), marker@, what@),
{
    let ghost start = seqs_of(out@);
    let ghost lv = seqs_of(ls@);
    let shown: usize = if ls.len() <= MAX_DIFF_LINES { ls.len() } else { MAX_DIFF_LINES };
    let mut i: usize = 0;
    while i < shown
        invariant
            shown <= ls@.len(),
            lv == seqs_of(ls@),
            shown == (if lv.len() <= 50 { lv.len() } else { 50 }),
            i <= shown,
            seqs_of(out@) == start + Seq::new(i as nat, |j: int| marker@ + lv[j]),
        decreases shown - i,
    {
        let mut l: Vec<char> = Vec::new();
        push_str(&mut l, marker);
        push_chars(&mut l, ls[i].as_slice());
        push_line(out, l);
        assert(Seq::new((i + 1) as nat, |j: int| marker@ + lv[j]) =~= Seq::new(i as nat, |j: int| marker@ + lv[j]).push(marker@ + lv[i as int]));
        i += 1;
    }
    if ls.len() > MAX_DIFF_LINES {
        let mut l: Vec<char> = Vec::new();
        push_str(&mut l, "... ");
        push_dec(&mut l, (ls.len() - MAX_DIFF_LINES) as u64);
        push_str(&mut l, " more ");
        push_str(&mut l, what);
        push_str(&mut l, " lines omitted");
        push_line(out, l);
    }
    assert(seqs_of(out@) =~= start + diff_side(lv, marker@, what@));
}

/// Format a whole-file diff (see `file_diff_lines`), lines joined with
/// line feeds.
pub fn format_file_diff(old_content: &str, new_content: &str, file_path: &str) -> (r: String)
    ensures
        r@ == join(file_diff_lines(old_content@, new_content@), seq!['\n']),
{
    let ol = split_lines(chars_of(old_content).as_slice());
    let nl = split_lines(chars_of(new_content).as_slice());
    let added: usize = if nl.len() >= ol.len() { nl.len() - ol.len() } else { 0 };
    let removed: usize = if ol.len() >= nl.len() { ol.len() - nl.len() } else { 0 };
    let mut out: Vec<Vec<char>> = Vec::new();
    let mut l: Vec<char> = Vec::new();
    push_str(&mut l, "**Changes:** ");
    push_dec(&mut l, added as u64);
    push_str(&mut l, " line(s) added, ");
    push_dec(&mut l, removed as u64);
    push_str(&mut l, " line(s) removed\n");
    push_line(&mut out, l);
    push_line(&mut out, literal_line("**Diff:**"));
    push_line(&mut out, literal_line("```diff"));
    let mut h: Vec<char> = Vec::new();
    push_str(&mut h, "@@ -1,");
    push_dec(&mut h, ol.len() as u64);
    push_str(&mut h, " +1,");
    push_dec(&mut h, nl.len() as u64);
    push_str(&mut h, " @@");
    push_line(&mut out, h);
    let ghost head = seqs_of(out@);
    push_diff_side(&mut out, &ol, "- ", "removed");
    push_diff_side(&mut out, &nl, "+ ", "added");
    push_line(&mut out, literal_line("```"));
    assert(seqs_of(out@) =~= file_diff_lines(old_content@, new_content@));
    let sep = ['\n'];
    assert(sep@ =~= seq!['\n']);
    let j = join_chars(&out, &sep);
    string_from_chars(j.as_slice())
}

/// The lines of replacement `i` (0-based) of a string diff.
pub open spec fn replacement_block(i: int, old: Seq<char>, new: Seq<char>) -> Seq<Seq<char>> {
    let o = lines_of(old);
    let n = lines_of(new);
    (if i > 0 { seq![Seq::<char>::empty()] } else { Seq::empty() }) + seq![
        "@@ Replacement #"@ + dec((i + 1) as nat) + ": "@ + dec(o.len()) + " line(s) → "@ + dec(n.len()) + " line(s) @@"@,
    ] + Seq::new(o.len(), |j: int| "- "@ + o[j]) + Seq::new(n.len(), |j: int| "+ "@ + n[j])
}

/// The blocks of the first `k` replacements.
pub open spec fn replacement_blocks(rs: Seq<(String, String)>, k: int) -> Seq<Seq<char>>
    decreases k,
{
    if k <= 0 {
        Seq::empty()
    } else {
        replacement_blocks(rs, k - 1) + replacement_block(k - 1, rs[k - 1].0@, rs[k - 1].1@)
    }
}

/// The lines of a diff of string replacements, with the file's language
/// noted when it has one.
pub open spec fn string_diff_lines(rs: Seq<(String, String)>, language: Seq<char>) -> Seq<Seq<char>> {
    seq!["**Changes Made:**\n"@, "```diff"@] + replacement_blocks(rs, rs.len() as int) + seq!["```"@] + if language.len() > 0 {
        seq!["\n*Language: "@ + language + seq!['*']]
    } else {
        Seq::empty()
    }
}

fn push_marked_lines(out: &mut Vec<Vec<char>>, ls: &Vec<Vec<char>>, marker: &str)
    ensures
        seqs_of(final(out)@) == seqs_of(old(out)@) + Seq::new(ls@.len(), |j: int| marker@ + ls@[j]@),
{
    let ghost start = seqs_of(out@);
    let mut i: usize = 0;
    while i < ls.len()
        invariant
            i <= ls@.len(),
            seqs_of(out@) == start + Seq::new(i as nat, |j: int| marker@ + ls@[j]@),
        decreases ls@.len() - i,
    {
        let mut l: Vec<char> = Vec::new();
        push_str(&mut l, marker);
        push_chars(&mut l, ls[i].as_slice());
        push_line(out, l);
        assert(Seq::new((i + 1) as nat, |j: int| marker@ + ls@[j]@) =~= Seq::new(i as nat, |j: int| marker@ + ls@[j]@).push(marker@ + ls@[i as int]@));
        i += 1;
    }
}

/// Format a diff of string replacements for a file of the given language.
pub fn format_string_diff_for_language(replacements: &[(String, String)], language: &str) -> (r: String)
    requires
        replacements@.len() < usize::MAX,
    ensures
        r@ == join(string_diff_lines(replacements@, language@), seq!['\n']),
{
    let mut out: Vec<Vec<char>> = Vec::new();
    push_line(&mut out, literal_line("**Changes Made:**\n"));
    push_line(&mut out, literal_line("```diff"));
    let ghost head = seqs_of(out@);
    assert(head =~= seq!["**Changes Made:**\n"@, "```diff"@]);
    let mut i: usize = 0;
    while i < replacements.len()
        invariant
            i <= replacements@.len() < usize::MAX,
            head =~= seq!["**Changes Made:**\n"@, "```diff"@],
            seqs_of(out@) == head + replacement_blocks(replacements@, i as int),
        decreases replacements@.len() - i,
    {
        let (old_str, new_str) = &replacements[i];
        let ol = split_lines(chars_of(old_str.as_str()).as_slice());
        let nl = split_lines(chars_of(new_str.as_str()).as_slice());
        let ghost before = seqs_of(out@);
        if i > 0 {
            push_line(&mut out, Vec::new());
        }
        let mut h: Vec<char> = Vec::new();
        push_str(&mut h, "@@ Replacement #");
        push_dec(&mut h, (i + 1) as u64);
        push_str(&mut h, ": ");
        push_dec(&mut h, ol.len() as u64);
        push_str(&mut h, " line(s) → ");
        push_dec(&mut h, nl.len() as u64);
        push_str(&mut h, " line(s) @@");
        push_line(&mut out, h);
        push_marked_lines(&mut out, &ol, "- ");
        push_marked_lines(&mut out, &nl, "+ ");
        assert(seqs_of(out@) =~= before + replacement_block(i as int, old_str@, new_str@));
        assert(seqs_of(out@) =~= head + replacement_blocks(replacements@, i + 1));
        i += 1;
    }
    push_line(&mut out, literal_line("```"));
    let ghost body = seqs_of(out@);
    assert(body =~= seq!["**Changes Made:**\n"@, "```diff"@] + replacement_blocks(replacements@, replacements@.len() as int) + seq!["```"@]);
    if chars_of(language).len() > 0 {
        let mut l: Vec<char> = Vec::new();
        push_str(&mut l, "\n*Language: ");
        push_str(&mut l, language);
        l.push('*');
        assert(l@ =~= "\n*Language: "@ + language@ + seq!['*']);
        push_line(&mut out, l);
        assert(seqs_of(out@) =~= body + seq!["\n*Language: "@ + language@ + seq!['*']]);
    } else {
        assert(seqs_of(out@) =~= body + Seq::<Seq<char>>::empty());
    }
    assert(seqs_of(out@) =~= string_diff_lines(replacements@, language@));
    let sep = ['\n'];
    assert(sep@ =~= seq!['\n']);
    let j = join_chars(&out, &sep);
    string_from_chars(j.as_slice())
}

/// Format a diff of string replacements made to `file_path`, noting the
/// language its extension names.
pub fn format_string_diff(replacements: &[(String, String)], file_path: &str) -> (r: String)
    requires
        replacements@.len() < usize::MAX,
    ensures
        exists|l: Seq<char>| is_language_name(l) && r@ == join(string_diff_lines(replacements@, l), seq!['\n']),
        has_plain_file_name(file_path@) ==> r@ == join(
            string_diff_lines(replacements@, plain_path_language(file_path@)),
            seq!['\n'],
        ),
{
    let language = detect_language(file_path);
    format_string_diff_for_language(replacements, language)
}

// ---------------------------------------------------------------------------
// Processes
// ---------------------------------------------------------------------------

/// The guidance given when a process id is not in the session registry:
/// the summary of the processes there, then where to look.
pub open spec fn not_found_guidance(summary: Seq<char>) -> Seq<Seq<char>> {
    seq![
        summary,
        "Use workspace__listProcesses() to find a valid processId."@,
        "workspace__readProcessOutput works while the process is still running — 'not found' means this ID is not in the registry."@,
    ]
}

/// Guidance when a processId is missing from the session registry.
///
/// "Not found" is not "still running": output can be read while a process
/// runs.
pub fn process_not_found_guidance(available_summary: String) -> (r: Vec<String>)
    ensures
        string_views(r@) == not_found_guidance(available_summary@),
{
    let mut v: Vec<String> = Vec::new();
    v.push(available_summary);
    v.push("Use workspace__listProcesses() to find a valid processId.".to_string());
    v.push("workspace__readProcessOutput works while the process is still running — 'not found' means this ID is not in the registry.".to_string());
    assert(string_views(v@) =~= not_found_guidance(v@[0]@));
    v
}

} // verus!
