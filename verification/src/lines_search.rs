//! The line search tool: the lines of a text (a file, a given input, or
//! every file under a directory) that a regex matches, and its replies.
use vstd::prelude::*;
use crate::text::{chars_of, dec, lines_of, push_chars, push_dec, push_str, split_lines, string_from_chars, trim, trim_chars};
use crate::edit::string_views;
use crate::search::{compile_regex, is_match_of, regex_error, regex_matches, TextRegex};

verus! {

// ---------------------------------------------------------------------------
// The regex and the matching lines
// ---------------------------------------------------------------------------

/// The refusal of a pattern that does not compile; a search of a single
/// text adds a third hint.
pub open spec fn lines_regex_refusal(error: Seq<char>, single_text: bool) -> (Seq<char>, Seq<Seq<char>>) {
    (
        "Invalid regex pattern: "@ + error,
        if single_text {
            seq![
                "Check regex syntax - use basic patterns like 'error|warning'"@,
                "Escape special characters with backslash: \\. \\* \\+ \\?"@,
                "Test pattern with a simpler string first"@,
            ]
        } else {
            seq![
                "Check regex syntax — use basic patterns like 'error|warning'"@,
                "Escape special characters with backslash: \\. \\* \\+ \\?"@,
            ]
        },
    )
}

/// The regex of a line search, or its refusal.
pub fn build_lines_regex(pattern: &str, ignore_case: bool, single_text: bool) -> (r: Result<
    TextRegex,
    (String, Vec<String>),
>)
    ensures
        match r {
            Ok(x) => x.source() == pattern@ && x.case_insensitive() == ignore_case && !x.multi_line() && !x.crlf()
                && regex_error(pattern@, ignore_case, false, false) is None,
            Err((m, g)) => match regex_error(pattern@, ignore_case, false, false) {
                Some(e) => (m@, string_views(g@)) == lines_regex_refusal(e, single_text),
                None => false,
            },
        },
{
    match compile_regex(pattern, ignore_case, false, false) {
        Ok(re) => Ok(re),
        Err(e) => {
            let mut m: Vec<char> = Vec::new();
            push_str(&mut m, "Invalid regex pattern: ");
            push_str(&mut m, e.as_str());
            let mut g: Vec<String> = Vec::new();
            if single_text {
                g.push("Check regex syntax - use basic patterns like 'error|warning'".to_string());
                g.push("Escape special characters with backslash: \\. \\* \\+ \\?".to_string());
                g.push("Test pattern with a simpler string first".to_string());
            } else {
                g.push("Check regex syntax — use basic patterns like 'error|warning'".to_string());
                g.push("Escape special characters with backslash: \\. \\* \\+ \\?".to_string());
            }
            let r = (string_from_chars(m.as_slice()), g);
            assert(string_views(r.1@) =~= lines_regex_refusal(e@, single_text).1);
            Err(r)
        },
    }
}

/// One matching line: its 1-based number and its text.
pub struct LineHit {
    pub line: usize,
    pub text: String,
}

/// The number (from 1) and text of each line of `ls` that the regex
/// matches, in order.
pub open spec fn line_hits(re: TextRegex, ls: Seq<Seq<char>>) -> Seq<(int, Seq<char>)>
    decreases ls.len(),
{
    if ls.len() == 0 {
        Seq::empty()
    } else if is_match_of(re, ls.last()) {
        line_hits(re, ls.drop_last()).push((ls.len() as int, ls.last()))
    } else {
        line_hits(re, ls.drop_last())
    }
}

/// The number and text of each hit.
pub open spec fn hit_views(r: Seq<LineHit>) -> Seq<(int, Seq<char>)> {
    Seq::new(r.len(), |i: int| (r[i].line as int, r[i].text@))
}

/// The matching lines of `text`, in order: each line the regex matches,
/// with its number.
pub fn matching_lines(text: &str, re: &TextRegex) -> (r: Vec<LineHit>)
    ensures
        hit_views(r@) == line_hits(*re, lines_of(text@)),
        forall|a: int, b: int| 0 <= a < b < r.len() ==> r[a].line < r[b].line,
        forall|i: int|
            0 <= i < r.len() ==> 1 <= #[trigger] r[i].line <= lines_of(text@).len() && r[i].text@ == lines_of(
                text@,
            )[r[i].line - 1],
{
    let chars = chars_of(text);
    let lines = split_lines(chars.as_slice());
    let ghost ls = lines_of(text@);
    assert(crate::text::seqs_of(lines@) == ls);
    let mut out: Vec<LineHit> = Vec::new();
    let mut i: usize = 0;
    while i < lines.len()
        invariant
            i <= lines.len(),
            crate::text::seqs_of(lines@) == ls,
            ls.len() == lines@.len(),
            forall|a: int, b: int| 0 <= a < b < out.len() ==> out[a].line < out[b].line,
            forall|k: int| 0 <= k < out.len() ==> 1 <= #[trigger] out[k].line <= i && out[k].text@ == ls[out[k].line - 1],
            hit_views(out@) == line_hits(*re, ls.take(i as int)),
        decreases lines.len() - i,
    {
        let line = string_from_chars(lines[i].as_slice());
        assert(ls[i as int] == lines@[i as int]@);
        assert(ls.take(i + 1).drop_last() =~= ls.take(i as int));
        assert(ls.take(i + 1).last() == ls[i as int]);
        let ghost before = out@;
        if regex_matches(re, line.as_str()) {
            out.push(LineHit { line: i + 1, text: line });
            assert(hit_views(out@) =~= hit_views(before).push(((i + 1) as int, ls[i as int])));
        }
        i += 1;
    }
    assert(ls.take(lines.len() as int) =~= ls);
    out
}

// ---------------------------------------------------------------------------
// Replies
// ---------------------------------------------------------------------------

pub open spec fn case_text(ignore_case: bool) -> Seq<char> {
    if ignore_case { "case-insensitive"@ } else { "case-sensitive"@ }
}

/// One shown hit of a single-text search: with its number or bare.
pub open spec fn hit_text(h: LineHit, line_numbers: bool) -> Seq<char> {
    if line_numbers {
        "Line "@ + dec(h.line as nat) + ": "@ + h.text@ + seq!['\n']
    } else {
        h.text@ + seq!['\n']
    }
}

pub open spec fn hits_text(hs: Seq<LineHit>, line_numbers: bool) -> Seq<char>
    decreases hs.len(),
{
    if hs.len() == 0 {
        Seq::<char>::empty()
    } else {
        hits_text(hs.drop_last(), line_numbers) + hit_text(hs.last(), line_numbers)
    }
}

/// The reply to a line search of one text: a "no matches" notice with
/// hints, or the first 20 hits in a code block with a count note and
/// hints.
pub open spec fn lines_report(
    pattern: Seq<char>,
    path: Option<Seq<char>>,
    ignore_case: bool,
    language: Seq<char>,
    hits: Seq<LineHit>,
    line_numbers: bool,
) -> Seq<char> {
    if hits.len() == 0 {
        "**🔍 Search Results: No matches found**\n\nPattern: `"@ + pattern + "`\nOptions: "@ + case_text(ignore_case)
            + "\n\n**Next Steps:**\n- Try a different search pattern\n- Use ignoreCase: true for case-insensitive search\n- Check if the file contains the expected content with readFile"@
    } else {
        let shown = if hits.len() <= 20 { hits } else { hits.take(20) };
        lines_header(hits.len(), path, pattern, ignore_case, language) + hits_text(shown, line_numbers) + lines_tail(
            hits.len(),
        )
    }
}

/// The opening of a reply with matches, up to the code block's first line.
pub open spec fn lines_header(
    n: nat,
    path: Option<Seq<char>>,
    pattern: Seq<char>,
    ignore_case: bool,
    language: Seq<char>,
) -> Seq<char> {
    "**🔍 Search Results: "@ + dec(n) + " match(es) found**\n\n"@ + match path {
        Some(p) => "File: `"@ + p + "`\n"@,
        None => Seq::<char>::empty(),
    } + "Pattern: `"@ + pattern + "`\n"@ + "Options: "@ + case_text(ignore_case) + "\n\n"@ + "```"@ + language
        + seq!['\n']
}

/// The end of a reply with matches: the code block closed, a count note
/// past 20 matches, and the hints.
pub open spec fn lines_tail(n: nat) -> Seq<char> {
    "```\n\n"@ + (if n > 20 {
        "*Showing first 20 of "@ + dec(n) + " total matches*\n\n"@
    } else {
        Seq::<char>::empty()
    })
        + "**Next Steps:**\n- Use readFile to see full file context\n- Use replaceLines to modify matched content\n- Refine search pattern for more specific results"@
}

fn push_lines_header(
    out: &mut Vec<char>,
    n: usize,
    path: Option<&str>,
    pattern: &str,
    ignore_case: bool,
    language: &str,
)
    ensures
        final(out)@ == old(out)@ + lines_header(
            n as nat,
            match path {
                Some(p) => Some(p@),
                None => None,
            },
            pattern@,
            ignore_case,
            language@,
        ),
{
    push_str(out, "**🔍 Search Results: ");
    push_dec(out, n as u64);
    push_str(out, " match(es) found**\n\n");
    match path {
        Some(p) => {
            push_str(out, "File: `");
            push_str(out, p);
            push_str(out, "`\n");
        },
        None => {},
    }
    push_str(out, "Pattern: `");
    push_str(out, pattern);
    push_str(out, "`\n");
    push_str(out, "Options: ");
    if ignore_case {
        push_str(out, "case-insensitive");
    } else {
        push_str(out, "case-sensitive");
    }
    push_str(out, "\n\n");
    push_str(out, "```");
    push_str(out, language);
    out.push('\n');
    assert(out@ =~= old(out)@ + lines_header(
        n as nat,
        match path {
            Some(p) => Some(p@),
            None => None,
        },
        pattern@,
        ignore_case,
        language@,
    ));
}

fn push_lines_tail(out: &mut Vec<char>, n: usize)
    ensures
        final(out)@ == old(out)@ + lines_tail(n as nat),
{
    push_str(out, "```\n\n");
    let ghost mid = out@;
    if n > 20 {
        push_str(out, "*Showing first 20 of ");
        push_dec(out, n as u64);
        push_str(out, " total matches*\n\n");
    }
    push_str(out, "**Next Steps:**\n- Use readFile to see full file context\n- Use replaceLines to modify matched content\n- Refine search pattern for more specific results");
    assert(out@ =~= old(out)@ + lines_tail(n as nat));
}

fn push_hit(out: &mut Vec<char>, h: &LineHit, line_numbers: bool)
    ensures
        final(out)@ == old(out)@ + hit_text(*h, line_numbers),
{
    if line_numbers {
        push_str(out, "Line ");
        push_dec(out, h.line as u64);
        push_str(out, ": ");
    }
    push_str(out, h.text.as_str());
    out.push('\n');
    assert(out@ =~= old(out)@ + hit_text(*h, line_numbers));
}

/// The reply to a line search of one text (see `lines_report`).
pub fn format_lines_report(
    pattern: &str,
    path: Option<&str>,
    ignore_case: bool,
    language: &str,
    hits: &[LineHit],
    line_numbers: bool,
) -> (r: String)
    ensures
        r@ == lines_report(
            pattern@,
            match path {
                Some(p) => Some(p@),
                None => None,
            },
            ignore_case,
            language@,
            hits@,
            line_numbers,
        ),
{
    let mut out: Vec<char> = Vec::new();
    if hits.len() == 0 {
        push_str(&mut out, "**🔍 Search Results: No matches found**\n\nPattern: `");
        push_str(&mut out, pattern);
        push_str(&mut out, "`\nOptions: ");
        if ignore_case {
            push_str(&mut out, "case-insensitive");
        } else {
            push_str(&mut out, "case-sensitive");
        }
        push_str(&mut out, "\n\n**Next Steps:**\n- Try a different search pattern\n- Use ignoreCase: true for case-insensitive search\n- Check if the file contains the expected content with readFile");
        let r = string_from_chars(out.as_slice());
        assert(r@ =~= lines_report(pattern@, match path { Some(p) => Some(p@), None => None }, ignore_case, language@, hits@, line_numbers));
        return r;
    }
    push_lines_header(&mut out, hits.len(), path, pattern, ignore_case, language);
    let ghost head = out@;
    let n = if hits.len() <= 20 { hits.len() } else { 20 };
    let ghost shown = if hits@.len() <= 20 { hits@ } else { hits@.take(20) };
    let mut i: usize = 0;
    assert(shown.take(0) =~= Seq::<LineHit>::empty());
    while i < n
        invariant
            i <= n,
            n == shown.len(),
            shown == (if hits@.len() <= 20 { hits@ } else { hits@.take(20) }),
            out@ == head + hits_text(shown.take(i as int), line_numbers),
        decreases n - i,
    {
        push_hit(&mut out, &hits[i], line_numbers);
        proof {
            assert(shown.take(i + 1).drop_last() =~= shown.take(i as int));
            assert(shown[i as int] == hits@[i as int]);
        }
        i += 1;
    }
    assert(shown.take(n as int) =~= shown);
    push_lines_tail(&mut out, hits.len());
    let r = string_from_chars(out.as_slice());
    assert(r@ =~= lines_report(pattern@, match path { Some(p) => Some(p@), None => None }, ignore_case, language@, hits@, line_numbers));
    r
}

/// The refusal when neither a path nor an input text is given.
pub fn no_text_refusal() -> (r: (String, Vec<String>))
    ensures
        r.0@ == "Either 'path' or 'input' parameter must be provided"@,
        string_views(r.1@) == seq![
            "Use 'path' to search within a file"@,
            "Use 'input' to search within provided text"@,
            "Example: {\"pattern\": \"error\", \"path\": \"logs.txt\"}"@,
        ],
{
    let mut g: Vec<String> = Vec::new();
    g.push("Use 'path' to search within a file".to_string());
    g.push("Use 'input' to search within provided text".to_string());
    g.push("Example: {\"pattern\": \"error\", \"path\": \"logs.txt\"}".to_string());
    let r = ("Either 'path' or 'input' parameter must be provided".to_string(), g);
    assert(string_views(r.1@) =~= seq![
        "Use 'path' to search within a file"@,
        "Use 'input' to search within provided text"@,
        "Example: {\"pattern\": \"error\", \"path\": \"logs.txt\"}"@,
    ]);
    r
}

// ---------------------------------------------------------------------------
// Many files
// ---------------------------------------------------------------------------

/// The matching lines of one file under the searched directory.
pub struct FileLineHits {
    pub rel_path: String,
    pub hits: Vec<LineHit>,
}

pub open spec fn dir_hit(h: LineHit, line_numbers: bool) -> Seq<char> {
    if line_numbers {
        "- L"@ + dec(h.line as nat) + ": `"@ + trim(h.text@) + "`\n"@
    } else {
        "- `"@ + trim(h.text@) + "`\n"@
    }
}

pub open spec fn dir_hits(hs: Seq<LineHit>, line_numbers: bool) -> Seq<char>
    decreases hs.len(),
{
    if hs.len() == 0 {
        Seq::<char>::empty()
    } else {
        dir_hits(hs.drop_last(), line_numbers) + dir_hit(hs.last(), line_numbers)
    }
}

pub open spec fn file_hits_block(f: FileLineHits, line_numbers: bool) -> Seq<char> {
    "### `"@ + f.rel_path@ + "`\n"@ + dir_hits(f.hits@, line_numbers) + seq!['\n']
}

pub open spec fn file_hits_blocks(fs: Seq<FileLineHits>, line_numbers: bool) -> Seq<char>
    decreases fs.len(),
{
    if fs.len() == 0 {
        Seq::<char>::empty()
    } else {
        file_hits_blocks(fs.drop_last(), line_numbers) + file_hits_block(fs.last(), line_numbers)
    }
}

pub open spec fn line_hit_total(fs: Seq<FileLineHits>) -> nat
    decreases fs.len(),
{
    if fs.len() == 0 {
        0
    } else {
        line_hit_total(fs.drop_last()) + fs.last().hits@.len()
    }
}

/// The reply to a line search of a directory, and its next steps.
pub open spec fn lines_dir_report(
    pattern: Seq<char>,
    display_path: Seq<char>,
    files_searched: nat,
    files: Seq<FileLineHits>,
    line_numbers: bool,
) -> (Seq<char>, Seq<Seq<char>>) {
    if files.len() == 0 {
        (
            "No matches for `"@ + pattern + "` in "@ + dec(files_searched) + " file(s) under `"@ + display_path
                + seq!['`'],
            seq!["Try a broader pattern or check the directory path"@, "Use ignoreCase: true for case-insensitive search"@],
        )
    } else {
        (
            "**🔍 Directory Search: "@ + dec(line_hit_total(files)) + " match(es) in "@ + dec(files.len())
                + " file(s)** (searched "@ + dec(files_searched) + " files)\nPattern: `"@ + pattern + "`  Path: `"@
                + display_path + "`\n\n"@ + file_hits_blocks(files, line_numbers),
            seq!["Use path: \"file\" to narrow search to a specific file"@],
        )
    }
}

fn push_dir_hit(out: &mut Vec<char>, h: &LineHit, line_numbers: bool)
    ensures
        final(out)@ == old(out)@ + dir_hit(*h, line_numbers),
{
    if line_numbers {
        push_str(out, "- L");
        push_dec(out, h.line as u64);
        push_str(out, ": `");
    } else {
        push_str(out, "- `");
    }
    let t = trim_chars(chars_of(h.text.as_str()).as_slice());
    push_chars(out, t.as_slice());
    push_str(out, "`\n");
    assert(out@ =~= old(out)@ + dir_hit(*h, line_numbers));
}

fn push_file_hits_block(out: &mut Vec<char>, f: &FileLineHits, line_numbers: bool)
    ensures
        final(out)@ == old(out)@ + file_hits_block(*f, line_numbers),
{
    push_str(out, "### `");
    push_str(out, f.rel_path.as_str());
    push_str(out, "`\n");
    let ghost head = out@;
    let mut i: usize = 0;
    assert(f.hits@.take(0) =~= Seq::<LineHit>::empty());
    while i < f.hits.len()
        invariant
            i <= f.hits@.len(),
            out@ == head + dir_hits(f.hits@.take(i as int), line_numbers),
        decreases f.hits@.len() - i,
    {
        push_dir_hit(out, &f.hits[i], line_numbers);
        proof {
            assert(f.hits@.take(i + 1).drop_last() =~= f.hits@.take(i as int));
        }
        i += 1;
    }
    assert(f.hits@.take(f.hits@.len() as int) =~= f.hits@);
    out.push('\n');
    assert(out@ =~= old(out)@ + file_hits_block(*f, line_numbers));
}

proof fn lemma_line_hit_total_prefix(fs: Seq<FileLineHits>, k: int)
    requires
        0 <= k <= fs.len(),
    ensures
        line_hit_total(fs.take(k)) <= line_hit_total(fs),
    decreases fs.len() - k,
{
    if k < fs.len() {
        lemma_line_hit_total_prefix(fs, k + 1);
        assert(fs.take(k + 1).drop_last() =~= fs.take(k));
    } else {
        assert(fs.take(k) =~= fs);
    }
}

/// The reply to a line search of a directory (see `lines_dir_report`).
pub fn format_lines_dir_report(
    pattern: &str,
    display_path: &str,
    files_searched: usize,
    files: &[FileLineHits],
    line_numbers: bool,
) -> (r: (String, Vec<String>))
    requires
        line_hit_total(files@) <= usize::MAX,
    ensures
        (r.0@, string_views(r.1@)) == lines_dir_report(pattern@, display_path@, files_searched as nat, files@, line_numbers),
{
    let mut out: Vec<char> = Vec::new();
    let mut steps: Vec<String> = Vec::new();
    if files.len() == 0 {
        push_str(&mut out, "No matches for `");
        push_str(&mut out, pattern);
        push_str(&mut out, "` in ");
        push_dec(&mut out, files_searched as u64);
        push_str(&mut out, " file(s) under `");
        push_str(&mut out, display_path);
        out.push('`');
        steps.push("Try a broader pattern or check the directory path".to_string());
        steps.push("Use ignoreCase: true for case-insensitive search".to_string());
        let r = (string_from_chars(out.as_slice()), steps);
        assert(r.0@ =~= lines_dir_report(pattern@, display_path@, files_searched as nat, files@, line_numbers).0);
        assert(string_views(r.1@) =~= lines_dir_report(pattern@, display_path@, files_searched as nat, files@, line_numbers).1);
        return r;
    }
    let mut total: usize = 0;
    let mut k: usize = 0;
    assert(files@.take(0) =~= Seq::<FileLineHits>::empty());
    while k < files.len()
        invariant
            k <= files.len(),
            total == line_hit_total(files@.take(k as int)),
            line_hit_total(files@) <= usize::MAX,
        decreases files.len() - k,
    {
        proof {
            assert(files@.take(k + 1).drop_last() =~= files@.take(k as int));
            lemma_line_hit_total_prefix(files@, k + 1);
        }
        total = total + files[k].hits.len();
        k += 1;
    }
    assert(files@.take(files.len() as int) =~= files@);
    push_str(&mut out, "**🔍 Directory Search: ");
    push_dec(&mut out, total as u64);
    push_str(&mut out, " match(es) in ");
    push_dec(&mut out, files.len() as u64);
    push_str(&mut out, " file(s)** (searched ");
    push_dec(&mut out, files_searched as u64);
    push_str(&mut out, " files)\nPattern: `");
    push_str(&mut out, pattern);
    push_str(&mut out, "`  Path: `");
    push_str(&mut out, display_path);
    push_str(&mut out, "`\n\n");
    let ghost head = out@;
    let mut i: usize = 0;
    while i < files.len()
        invariant
            i <= files.len(),
            out@ == head + file_hits_blocks(files@.take(i as int), line_numbers),
        decreases files.len() - i,
    {
        push_file_hits_block(&mut out, &files[i], line_numbers);
        proof {
            assert(files@.take(i + 1).drop_last() =~= files@.take(i as int));
        }
        i += 1;
    }
    steps.push("Use path: \"file\" to narrow search to a specific file".to_string());
    let r = (string_from_chars(out.as_slice()), steps);
    assert(r.0@ =~= lines_dir_report(pattern@, display_path@, files_searched as nat, files@, line_numbers).0);
    assert(string_views(r.1@) =~= lines_dir_report(pattern@, display_path@, files_searched as nat, files@, line_numbers).1);
    r
}

} // verus!
