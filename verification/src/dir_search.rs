//! Searching a directory: which entries the walk skips, which files are
//! not opened, and the replies of a file-name search and of a content
//! search over many files.
use vstd::prelude::*;
use crate::text::{lower_seq, chars_of, dec, push_chars, push_dec, push_str, str_eq, string_from_chars, trim, trim_chars};
use crate::edit::string_views;
use crate::sizes::{file_size_text, format_file_size};
use crate::grep::{GrepLine, page_bounds, page_of};
use crate::terminal::{lowercase_of, to_lowercase};

verus! {

/// Files larger than this are never searched for content.
pub const MAX_SEARCH_CONTENT_FILE_SIZE: usize = 5242880;

/// How many matching lines of each file a directory search shows.
pub const PER_FILE_PREVIEW_LIMIT: usize = 5;

// ---------------------------------------------------------------------------
// What the walk skips
// ---------------------------------------------------------------------------

/// Directories too heavy to walk.
pub open spec fn skipped_dir_names() -> Seq<Seq<char>> {
    seq![".git"@, "node_modules"@, "dist"@, "target"@, ".next"@, "coverage"@]
}

pub fn is_skipped_dir_name(name: &str) -> (r: bool)
    ensures
        r == skipped_dir_names().contains(name@),
{
    let r = str_eq(name, ".git") || str_eq(name, "node_modules") || str_eq(name, "dist") || str_eq(name, "target")
        || str_eq(name, ".next") || str_eq(name, "coverage");
    proof {
        let s = skipped_dir_names();
        if r {
            if name@ == ".git"@ { assert(s[0] == name@); }
            if name@ == "node_modules"@ { assert(s[1] == name@); }
            if name@ == "dist"@ { assert(s[2] == name@); }
            if name@ == "target"@ { assert(s[3] == name@); }
            if name@ == ".next"@ { assert(s[4] == name@); }
            if name@ == "coverage"@ { assert(s[5] == name@); }
        }
    }
    r
}

/// Why the walk leaves an entry (and, for a directory, all below it) out.
pub enum SkipReason {
    Gitignored,
    HeavyweightDirectory,
    InternalArtifactDirectory,
}

/// The skip rule: the root is never skipped; then an internal artifact
/// directory, an entry that `.gitignore` excludes, and a heavyweight
/// directory by name, in that order.
pub open spec fn skip_reason(root: bool, is_dir: bool, internal_artifact: bool, gitignored: bool, name: Option<Seq<char>>) -> Option<SkipReason> {
    if root {
        None
    } else if is_dir && internal_artifact {
        Some(SkipReason::InternalArtifactDirectory)
    } else if gitignored {
        Some(SkipReason::Gitignored)
    } else if is_dir && (name matches Some(n) && skipped_dir_names().contains(n)) {
        Some(SkipReason::HeavyweightDirectory)
    } else {
        None
    }
}

/// Classifies one entry of the walk (`root` for the starting entry;
/// `name` is its file name when it is valid UTF-8).
pub fn classify_search_entry_skip(
    root: bool,
    is_dir: bool,
    internal_artifact: bool,
    gitignored: bool,
    name: Option<&str>,
) -> (r: Option<SkipReason>)
    ensures
        r == skip_reason(
            root,
            is_dir,
            internal_artifact,
            gitignored,
            match name {
                Some(n) => Some(n@),
                None => None,
            },
        ),
{
    if root {
        None
    } else if is_dir && internal_artifact {
        Some(SkipReason::InternalArtifactDirectory)
    } else if gitignored {
        Some(SkipReason::Gitignored)
    } else if is_dir && match name {
        Some(n) => is_skipped_dir_name(n),
        None => false,
    } {
        Some(SkipReason::HeavyweightDirectory)
    } else {
        None
    }
}

/// File extensions (in lower case) whose files a content search never
/// opens.
pub open spec fn binary_extensions() -> Seq<Seq<char>> {
    seq![
        "png"@, "jpg"@, "jpeg"@, "gif"@, "webp"@, "svg"@, "ico"@, "pdf"@, "zip"@, "tar"@, "gz"@, "bz2"@, "xz"@,
        "exe"@, "dll"@, "so"@, "dylib"@, "bin"@, "wasm"@, "mp3"@, "mp4"@, "wav"@, "ogg"@, "flac"@, "ttf"@,
        "woff"@, "woff2"@,
    ]
}

fn is_binary_extension_lower(e: &str) -> (r: bool)
    ensures
        r == binary_extensions().contains(e@),
{
    let names = [
        "png", "jpg", "jpeg", "gif", "webp", "svg", "ico", "pdf", "zip", "tar", "gz", "bz2", "xz", "exe", "dll",
        "so", "dylib", "bin", "wasm", "mp3", "mp4", "wav", "ogg", "flac", "ttf", "woff", "woff2",
    ];
    let ghost want = binary_extensions();
    assert(forall|i: int| 0 <= i < 27 ==> (#[trigger] names@[i])@ == want[i]);
    let mut i: usize = 0;
    while i < 27
        invariant
            i <= 27,
            names@.len() == 27,
            want == binary_extensions(),
            forall|k: int| 0 <= k < 27 ==> (#[trigger] names@[k])@ == want[k],
            forall|k: int| 0 <= k < i ==> want[k] != e@,
        decreases 27 - i,
    {
        if str_eq(names[i], e) {
            assert(want[i as int] == e@);
            return true;
        }
        i += 1;
    }
    proof {
        if want.contains(e@) {
            let k = choose|k: int| 0 <= k < want.len() && want[k] == e@;
            assert(want[k] != e@);
        }
    }
    false
}

/// A file whose extension (any case) marks it as binary.
pub open spec fn has_binary_extension(ext: Option<Seq<char>>) -> bool {
    binary_extensions().contains(
        lowercase_of(
            match ext {
                Some(e) => e,
                None => Seq::<char>::empty(),
            },
        ),
    )
}

/// Whether a content search leaves a file out for its extension (the
/// extension when it is valid UTF-8).
pub fn skips_binary_extension(ext: Option<&str>) -> (r: bool)
    ensures
        r == has_binary_extension(
            match ext {
                Some(e) => Some(e@),
                None => None,
            },
        ),
        match ext {
            Some(e) => vstd::utf8::is_ascii_chars(e@) ==> (r <==> binary_extensions().contains(lower_seq(e@))),
            None => true,
        },
{
    let e = match ext {
        Some(e) => e,
        None => "",
    };
    proof {
        if ext is None {
            assert(e@ == ""@);
            reveal_strlit("");
            assert(e@ =~= Seq::<char>::empty());
        }
    }
    let lower = to_lowercase(e);
    is_binary_extension_lower(lower.as_str())
}

/// The size limit of a content search: the configured limit, at most
/// 5 MiB.
pub fn effective_search_content_file_size_limit(configured: usize) -> (r: usize)
    ensures
        r == (if configured < MAX_SEARCH_CONTENT_FILE_SIZE { configured } else { MAX_SEARCH_CONTENT_FILE_SIZE }),
{
    if configured < MAX_SEARCH_CONTENT_FILE_SIZE {
        configured
    } else {
        MAX_SEARCH_CONTENT_FILE_SIZE
    }
}

// ---------------------------------------------------------------------------
// Notes on what was skipped
// ---------------------------------------------------------------------------

pub open spec fn plural_y(n: nat) -> Seq<char> {
    if n == 1 { seq!['y'] } else { "ies"@ }
}

pub open spec fn heavy_note(n: nat) -> Seq<char> {
    if n > 0 {
        "*Skipped "@ + dec(n) + " heavyweight director"@ + plural_y(n)
            + " (`.git`, `node_modules`, `dist`, `target`, `.next`, `coverage`)*\n"@
    } else {
        Seq::<char>::empty()
    }
}

pub open spec fn gitignored_note(n: nat) -> Seq<char> {
    if n > 0 {
        "*Skipped "@ + dec(n) + " .gitignore-matched director"@ + plural_y(n) + "*\n"@
    } else {
        Seq::<char>::empty()
    }
}

fn push_plural_y(out: &mut Vec<char>, n: usize)
    ensures
        final(out)@ == old(out)@ + plural_y(n as nat),
{
    if n == 1 {
        out.push('y');
        assert(out@ =~= old(out)@ + plural_y(n as nat));
    } else {
        push_str(out, "ies");
    }
}

fn push_dir_notes(out: &mut Vec<char>, heavy: usize, gitignored: usize)
    ensures
        final(out)@ == old(out)@ + heavy_note(heavy as nat) + gitignored_note(gitignored as nat),
{
    let ghost start = out@;
    if heavy > 0 {
        push_str(out, "*Skipped ");
        push_dec(out, heavy as u64);
        push_str(out, " heavyweight director");
        push_plural_y(out, heavy);
        push_str(out, " (`.git`, `node_modules`, `dist`, `target`, `.next`, `coverage`)*\n");
    }
    assert(out@ =~= start + heavy_note(heavy as nat));
    let ghost mid = out@;
    if gitignored > 0 {
        push_str(out, "*Skipped ");
        push_dec(out, gitignored as u64);
        push_str(out, " .gitignore-matched director");
        push_plural_y(out, gitignored);
        push_str(out, "*\n");
    }
    assert(out@ =~= mid + gitignored_note(gitignored as nat));
}

// ---------------------------------------------------------------------------
// A search for file names
// ---------------------------------------------------------------------------

/// One entry found by a file-name search.
pub struct FoundEntry {
    pub path: String,
    pub is_dir: bool,
    pub size: Option<u64>,
}

pub open spec fn found_row(e: FoundEntry) -> Seq<char> {
    "| "@ + (if e.is_dir { "📁 dir"@ } else { "📄 file"@ }) + " | `"@ + e.path@ + "` | "@ + match e.size {
        Some(s) => file_size_text(s as nat),
        None => seq!['-'],
    } + " |\n"@
}

pub open spec fn found_rows(es: Seq<FoundEntry>) -> Seq<char>
    decreases es.len(),
{
    if es.len() == 0 {
        Seq::<char>::empty()
    } else {
        found_rows(es.drop_last()) + found_row(es.last())
    }
}

pub open spec fn found_page_note(offset: nat, shown: nat, total: nat, limit: nat) -> Seq<char> {
    if offset + shown < total {
        "\n*(Showing "@ + dec(offset + 1) + " to "@ + dec(offset + shown) + " of "@ + dec(total)
            + " total matches. Call search with offset: "@ + dec(offset + limit) + " to see more)*\n"@
    } else if offset > 0 {
        "\n*(Showing "@ + dec(offset + 1) + " to "@ + dec(offset + shown) + " of "@ + dec(total) + " total matches)*\n"@
    } else {
        Seq::<char>::empty()
    }
}

/// The reply to a file-name search: a "no matches" notice, or the page
/// of entries as a table with a paging note and notes on skipped
/// directories; and the next steps.
pub open spec fn file_search_report(
    pattern: Seq<char>,
    display_path: Seq<char>,
    all: Seq<FoundEntry>,
    offset: nat,
    limit: nat,
    heavy: nat,
    gitignored: nat,
) -> (Seq<char>, Seq<Seq<char>>) {
    if all.len() == 0 {
        (
            "**🔍 File Search: No matches found**\n\nPattern: `"@ + pattern + "`\nSearch Path: `"@ + display_path
                + seq!['`'],
            seq![
                "Verify the pattern syntax (use glob format like `*.txt` or `**/*.rs`)"@,
                "Use listDirectory to explore available files"@,
            ],
        )
    } else {
        let page = page_of(all, offset as int, limit as int);
        (
            "**🔍 File Search: "@ + dec(all.len()) + " file(s) found**\n\nPattern: `"@ + pattern
                + "`\nSearch Path: `"@ + display_path + "`\n\n"@ + "| Type | Path | Size |\n|---|---|---|\n"@
                + found_rows(page) + found_page_note(offset, page.len(), all.len(), limit) + heavy_note(heavy)
                + gitignored_note(gitignored),
            seq![
                "Refine search query or filePattern if too many results were returned"@,
                "Use offset and limit to paginate through results if truncated"@,
                "Use search on specific directories to narrow down"@,
            ],
        )
    }
}

fn push_found_row(out: &mut Vec<char>, e: &FoundEntry)
    ensures
        final(out)@ == old(out)@ + found_row(*e),
{
    push_str(out, "| ");
    if e.is_dir {
        push_str(out, "📁 dir");
    } else {
        push_str(out, "📄 file");
    }
    push_str(out, " | `");
    push_str(out, e.path.as_str());
    push_str(out, "` | ");
    match e.size {
        Some(s) => {
            let t = format_file_size(s);
            push_str(out, t.as_str());
        },
        None => {
            out.push('-');
        },
    }
    push_str(out, " |\n");
    assert(out@ =~= old(out)@ + found_row(*e));
}

fn push_found_page_note(out: &mut Vec<char>, offset: usize, shown: usize, total: usize, limit: usize)
    requires
        offset as int + (limit as int) < usize::MAX,
        shown <= limit,
    ensures
        final(out)@ == old(out)@ + found_page_note(offset as nat, shown as nat, total as nat, limit as nat),
{
    if offset + shown < total {
        push_str(out, "\n*(Showing ");
        push_dec(out, (offset + 1) as u64);
        push_str(out, " to ");
        push_dec(out, (offset + shown) as u64);
        push_str(out, " of ");
        push_dec(out, total as u64);
        push_str(out, " total matches. Call search with offset: ");
        push_dec(out, (offset + limit) as u64);
        push_str(out, " to see more)*\n");
        assert(out@ =~= old(out)@ + found_page_note(offset as nat, shown as nat, total as nat, limit as nat));
    } else if offset > 0 {
        push_str(out, "\n*(Showing ");
        push_dec(out, (offset + 1) as u64);
        push_str(out, " to ");
        push_dec(out, (offset + shown) as u64);
        push_str(out, " of ");
        push_dec(out, total as u64);
        push_str(out, " total matches)*\n");
        assert(out@ =~= old(out)@ + found_page_note(offset as nat, shown as nat, total as nat, limit as nat));
    } else {
        assert(out@ =~= old(out)@ + found_page_note(offset as nat, shown as nat, total as nat, limit as nat));
    }
}

/// The reply to a file-name search (see `file_search_report`).
pub fn format_file_search_report(
    pattern: &str,
    display_path: &str,
    all: &[FoundEntry],
    offset: usize,
    limit: usize,
    heavy: usize,
    gitignored: usize,
) -> (r: (String, Vec<String>))
    requires
        offset as int + (limit as int) < usize::MAX,
    ensures
        (r.0@, string_views(r.1@)) == file_search_report(
            pattern@,
            display_path@,
            all@,
            offset as nat,
            limit as nat,
            heavy as nat,
            gitignored as nat,
        ),
{
    let mut out: Vec<char> = Vec::new();
    let mut steps: Vec<String> = Vec::new();
    if all.len() == 0 {
        push_str(&mut out, "**🔍 File Search: No matches found**\n\nPattern: `");
        push_str(&mut out, pattern);
        push_str(&mut out, "`\nSearch Path: `");
        push_str(&mut out, display_path);
        out.push('`');
        steps.push("Verify the pattern syntax (use glob format like `*.txt` or `**/*.rs`)".to_string());
        steps.push("Use listDirectory to explore available files".to_string());
        let r = (string_from_chars(out.as_slice()), steps);
        assert(r.0@ =~= file_search_report(pattern@, display_path@, all@, offset as nat, limit as nat, heavy as nat, gitignored as nat).0);
        assert(string_views(r.1@) =~= file_search_report(pattern@, display_path@, all@, offset as nat, limit as nat, heavy as nat, gitignored as nat).1);
        return r;
    }
    let total = all.len();
    let (start, end) = page_bounds(total, offset, limit);
    proof {
        crate::grep::lemma_page_of_bounds(all@, offset as int, limit as int, start as int, end as int);
    }
    push_str(&mut out, "**🔍 File Search: ");
    push_dec(&mut out, total as u64);
    push_str(&mut out, " file(s) found**\n\nPattern: `");
    push_str(&mut out, pattern);
    push_str(&mut out, "`\nSearch Path: `");
    push_str(&mut out, display_path);
    push_str(&mut out, "`\n\n");
    push_str(&mut out, "| Type | Path | Size |\n|---|---|---|\n");
    let ghost head = out@;
    let mut i = start;
    assert(all@.subrange(start as int, start as int) =~= Seq::<FoundEntry>::empty());
    while i < end
        invariant
            start <= i <= end,
            end <= all.len(),
            out@ == head + found_rows(all@.subrange(start as int, i as int)),
        decreases end - i,
    {
        push_found_row(&mut out, &all[i]);
        proof {
            let sub = all@.subrange(start as int, i + 1);
            assert(sub.drop_last() =~= all@.subrange(start as int, i as int));
            assert(sub.last() == all@[i as int]);
        }
        i += 1;
    }
    push_found_page_note(&mut out, offset, end - start, total, limit);
    push_dir_notes(&mut out, heavy, gitignored);
    steps.push("Refine search query or filePattern if too many results were returned".to_string());
    steps.push("Use offset and limit to paginate through results if truncated".to_string());
    steps.push("Use search on specific directories to narrow down".to_string());
    let r = (string_from_chars(out.as_slice()), steps);
    assert(r.0@ =~= file_search_report(pattern@, display_path@, all@, offset as nat, limit as nat, heavy as nat, gitignored as nat).0);
    assert(string_views(r.1@) =~= file_search_report(pattern@, display_path@, all@, offset as nat, limit as nat, heavy as nat, gitignored as nat).1);
    r
}

// ---------------------------------------------------------------------------
// A search of file contents under a directory
// ---------------------------------------------------------------------------

/// The matching lines of one file, by its path relative to the search
/// root.
pub struct FileHits {
    pub rel_path: String,
    pub hits: Vec<GrepLine>,
}

/// One shown match: anchored when anchors were asked for, else the line
/// number and the trimmed text.
pub open spec fn dir_hit_line(m: GrepLine) -> Seq<char> {
    match m.anchor {
        Some(a) => dec(m.line as nat) + seq![':'] + a@ + seq!['|'] + m.text@ + seq!['\n'],
        None => "- L"@ + dec(m.line as nat) + ": `"@ + trim(m.text@) + "`\n"@,
    }
}

pub open spec fn dir_hit_lines(hs: Seq<GrepLine>) -> Seq<char>
    decreases hs.len(),
{
    if hs.len() == 0 {
        Seq::<char>::empty()
    } else {
        dir_hit_lines(hs.drop_last()) + dir_hit_line(hs.last())
    }
}

/// The block of one file: its path, its first five matches, and how many
/// more there are.
pub open spec fn file_block(f: FileHits) -> Seq<char> {
    let hs = f.hits@;
    "### `"@ + f.rel_path@ + "`\n"@ + dir_hit_lines(if hs.len() <= 5 { hs } else { hs.take(5) }) + (if hs.len() > 5 {
        "  ... and "@ + dec((hs.len() - 5) as nat) + " more matches in this file (showing first 5 per file)\n"@
    } else {
        Seq::<char>::empty()
    }) + seq!['\n']
}

pub open spec fn file_blocks(fs: Seq<FileHits>) -> Seq<char>
    decreases fs.len(),
{
    if fs.len() == 0 {
        Seq::<char>::empty()
    } else {
        file_blocks(fs.drop_last()) + file_block(fs.last())
    }
}

/// The number of matches over all files.
pub open spec fn total_hits(fs: Seq<FileHits>) -> nat
    decreases fs.len(),
{
    if fs.len() == 0 {
        0
    } else {
        total_hits(fs.drop_last()) + fs.last().hits@.len()
    }
}

pub open spec fn dir_page_note(offset: nat, shown: nat, total: nat, limit: nat) -> Seq<char> {
    if offset + shown < total {
        "*(Showing "@ + dec(offset + 1) + " to "@ + dec(offset + shown) + " of "@ + dec(total)
            + " total files with matches. Call search with offset: "@ + dec(offset + limit) + " to see more)*\n"@
    } else if offset > 0 {
        "*(Showing "@ + dec(offset + 1) + " to "@ + dec(offset + shown) + " of "@ + dec(total)
            + " total files with matches)*\n"@
    } else {
        Seq::<char>::empty()
    }
}

pub open spec fn file_notes(large: nat, binary: nat, max_size: nat) -> Seq<char> {
    (if large > 0 {
        "*Skipped "@ + dec(large) + " large file(s) over "@ + file_size_text(max_size) + "*\n"@
    } else {
        Seq::<char>::empty()
    }) + (if binary > 0 {
        "*Skipped "@ + dec(binary) + " binary-looking file(s)*\n"@
    } else {
        Seq::<char>::empty()
    })
}

pub open spec fn options_text(ignore_case: bool) -> Seq<char> {
    if ignore_case { "case-insensitive"@ } else { "case-sensitive"@ }
}

/// What a directory search counted besides the matches.
pub struct SearchCounts {
    pub files_searched: usize,
    pub heavy_dirs: usize,
    pub gitignored_dirs: usize,
    pub large_files: usize,
    pub binary_files: usize,
    pub max_size: usize,
}

/// The reply to a content search of a directory: when no file matched, a
/// one-line notice and steps that mention skipped files; otherwise the
/// counts, the page of files with their first matches, a paging note,
/// notes on what was skipped, and steps.
pub open spec fn dir_search_report(
    query: Seq<char>,
    display_path: Seq<char>,
    ignore_case: bool,
    all: Seq<FileHits>,
    offset: nat,
    limit: nat,
    show_hashes: bool,
    c: SearchCounts,
) -> (Seq<char>, Seq<Seq<char>>) {
    if all.len() == 0 {
        (
            "No matches for `"@ + query + "` in "@ + dec(c.files_searched as nat) + " file(s) under `"@ + display_path
                + "` (Options: "@ + options_text(ignore_case) + seq![')'],
            seq!["Try a broader pattern or check the directory path"@, "Try toggling ignoreCase"@] + (if c.large_files
                > 0 {
                seq![
                    "Skipped "@ + dec(c.large_files as nat) + " large file(s) over "@ + file_size_text(c.max_size as nat)
                        + "; narrow the search path if you need those files"@,
                ]
            } else {
                Seq::<Seq<char>>::empty()
            }) + (if c.binary_files > 0 {
                seq![
                    "Skipped "@ + dec(c.binary_files as nat)
                        + " binary-looking file(s); refine filePattern if you need a specific artifact"@,
                ]
            } else {
                Seq::<Seq<char>>::empty()
            }),
        )
    } else {
        let page = page_of(all, offset as int, limit as int);
        let any_skipped = c.heavy_dirs > 0 || c.gitignored_dirs > 0 || c.large_files > 0 || c.binary_files > 0;
        (
            "**🔍 Directory Search: "@ + dec(total_hits(all)) + " match(es) in "@ + dec(all.len()) + " file(s)** (searched "@
                + dec(c.files_searched as nat) + " files)\nPattern: `"@ + query + "`  Path: `"@ + display_path
                + "`\nOptions: "@ + options_text(ignore_case) + "\n\n"@ + file_blocks(page) + dir_page_note(
                offset,
                page.len(),
                all.len(),
                limit,
            ) + (if any_skipped { seq!['\n'] } else { Seq::<char>::empty() }) + heavy_note(c.heavy_dirs as nat)
                + gitignored_note(c.gitignored_dirs as nat) + file_notes(
                c.large_files as nat,
                c.binary_files as nat,
                c.max_size as nat,
            ),
            seq![
                "Use search with a specific file path to see all matches in that file"@,
                if show_hashes {
                    "Use the returned anchors with editFiles; add endAnchor for range replacement/deletion"@
                } else {
                    "Run with `showLineAnchors: true` to get anchors for targeted editing tools."@
                },
            ],
        )
    }
}

fn push_dir_hit_line(out: &mut Vec<char>, m: &GrepLine)
    ensures
        final(out)@ == old(out)@ + dir_hit_line(*m),
{
    match &m.anchor {
        Some(a) => {
            push_dec(out, m.line as u64);
            out.push(':');
            push_str(out, a.as_str());
            out.push('|');
            push_str(out, m.text.as_str());
            out.push('\n');
        },
        None => {
            push_str(out, "- L");
            push_dec(out, m.line as u64);
            push_str(out, ": `");
            let t = trim_chars(chars_of(m.text.as_str()).as_slice());
            push_chars(out, t.as_slice());
            push_str(out, "`\n");
        },
    }
    assert(out@ =~= old(out)@ + dir_hit_line(*m));
}

fn push_file_block(out: &mut Vec<char>, f: &FileHits)
    ensures
        final(out)@ == old(out)@ + file_block(*f),
{
    push_str(out, "### `");
    push_str(out, f.rel_path.as_str());
    push_str(out, "`\n");
    let ghost head = out@;
    let n = f.hits.len();
    let shown = if n <= PER_FILE_PREVIEW_LIMIT { n } else { PER_FILE_PREVIEW_LIMIT };
    let ghost hs = f.hits@;
    let ghost sh = if hs.len() <= 5 { hs } else { hs.take(5) };
    let mut i: usize = 0;
    assert(sh.take(0) =~= Seq::<GrepLine>::empty());
    while i < shown
        invariant
            i <= shown,
            shown == sh.len(),
            hs == f.hits@,
            sh == (if hs.len() <= 5 { hs } else { hs.take(5) }),
            out@ == head + dir_hit_lines(sh.take(i as int)),
        decreases shown - i,
    {
        push_dir_hit_line(out, &f.hits[i]);
        proof {
            assert(sh.take(i + 1).drop_last() =~= sh.take(i as int));
            assert(sh[i as int] == hs[i as int]);
        }
        i += 1;
    }
    assert(sh.take(shown as int) =~= sh);
    let ghost mid = out@;
    if n > PER_FILE_PREVIEW_LIMIT {
        push_str(out, "  ... and ");
        push_dec(out, (n - PER_FILE_PREVIEW_LIMIT) as u64);
        push_str(out, " more matches in this file (showing first 5 per file)\n");
    }
    out.push('\n');
    assert(out@ =~= old(out)@ + file_block(*f));
}

fn push_dir_page_note(out: &mut Vec<char>, offset: usize, shown: usize, total: usize, limit: usize)
    requires
        offset as int + (limit as int) < usize::MAX,
        shown <= limit,
    ensures
        final(out)@ == old(out)@ + dir_page_note(offset as nat, shown as nat, total as nat, limit as nat),
{
    if offset + shown < total {
        push_str(out, "*(Showing ");
        push_dec(out, (offset + 1) as u64);
        push_str(out, " to ");
        push_dec(out, (offset + shown) as u64);
        push_str(out, " of ");
        push_dec(out, total as u64);
        push_str(out, " total files with matches. Call search with offset: ");
        push_dec(out, (offset + limit) as u64);
        push_str(out, " to see more)*\n");
        assert(out@ =~= old(out)@ + dir_page_note(offset as nat, shown as nat, total as nat, limit as nat));
    } else if offset > 0 {
        push_str(out, "*(Showing ");
        push_dec(out, (offset + 1) as u64);
        push_str(out, " to ");
        push_dec(out, (offset + shown) as u64);
        push_str(out, " of ");
        push_dec(out, total as u64);
        push_str(out, " total files with matches)*\n");
        assert(out@ =~= old(out)@ + dir_page_note(offset as nat, shown as nat, total as nat, limit as nat));
    } else {
        assert(out@ =~= old(out)@ + dir_page_note(offset as nat, shown as nat, total as nat, limit as nat));
    }
}

fn push_file_notes(out: &mut Vec<char>, large: usize, binary: usize, max_size: usize)
    ensures
        final(out)@ == old(out)@ + file_notes(large as nat, binary as nat, max_size as nat),
{
    let ghost start = out@;
    if large > 0 {
        push_str(out, "*Skipped ");
        push_dec(out, large as u64);
        push_str(out, " large file(s) over ");
        let t = format_file_size(max_size as u64);
        push_str(out, t.as_str());
        push_str(out, "*\n");
    }
    let ghost mid = out@;
    if binary > 0 {
        push_str(out, "*Skipped ");
        push_dec(out, binary as u64);
        push_str(out, " binary-looking file(s)*\n");
    }
    assert(out@ =~= old(out)@ + file_notes(large as nat, binary as nat, max_size as nat));
}

fn count_hits(all: &[FileHits]) -> (r: usize)
    requires
        total_hits(all@) <= usize::MAX,
    ensures
        r == total_hits(all@),
{
    let mut total: usize = 0;
    let mut i: usize = 0;
    proof {
        assert(all@.take(0) =~= Seq::<FileHits>::empty());
    }
    while i < all.len()
        invariant
            i <= all.len(),
            total == total_hits(all@.take(i as int)),
            total_hits(all@) <= usize::MAX,
        decreases all.len() - i,
    {
        proof {
            assert(all@.take(i + 1).drop_last() =~= all@.take(i as int));
            lemma_total_hits_prefix(all@, i + 1);
        }
        total = total + all[i].hits.len();
        i += 1;
    }
    assert(all@.take(all.len() as int) =~= all@);
    total
}

proof fn lemma_total_hits_prefix(fs: Seq<FileHits>, k: int)
    requires
        0 <= k <= fs.len(),
    ensures
        total_hits(fs.take(k)) <= total_hits(fs),
    decreases fs.len() - k,
{
    if k < fs.len() {
        lemma_total_hits_prefix(fs, k + 1);
        assert(fs.take(k + 1).drop_last() =~= fs.take(k));
    } else {
        assert(fs.take(k) =~= fs);
    }
}

fn no_match_text(query: &str, display_path: &str, ignore_case: bool, c: &SearchCounts) -> (r: (String, Vec<String>))
    ensures
        (r.0@, string_views(r.1@)) == dir_search_report(query@, display_path@, ignore_case, Seq::empty(), 0, 0, false, *c),
{
    let mut out: Vec<char> = Vec::new();
    push_str(&mut out, "No matches for `");
    push_str(&mut out, query);
    push_str(&mut out, "` in ");
    push_dec(&mut out, c.files_searched as u64);
    push_str(&mut out, " file(s) under `");
    push_str(&mut out, display_path);
    push_str(&mut out, "` (Options: ");
    if ignore_case {
        push_str(&mut out, "case-insensitive");
    } else {
        push_str(&mut out, "case-sensitive");
    }
    out.push(')');
    let mut steps: Vec<String> = Vec::new();
    steps.push("Try a broader pattern or check the directory path".to_string());
    steps.push("Try toggling ignoreCase".to_string());
    if c.large_files > 0 {
        let mut a: Vec<char> = Vec::new();
        push_str(&mut a, "Skipped ");
        push_dec(&mut a, c.large_files as u64);
        push_str(&mut a, " large file(s) over ");
        let t = format_file_size(c.max_size as u64);
        push_str(&mut a, t.as_str());
        push_str(&mut a, "; narrow the search path if you need those files");
        steps.push(string_from_chars(a.as_slice()));
    }
    if c.binary_files > 0 {
        let mut b: Vec<char> = Vec::new();
        push_str(&mut b, "Skipped ");
        push_dec(&mut b, c.binary_files as u64);
        push_str(&mut b, " binary-looking file(s); refine filePattern if you need a specific artifact");
        steps.push(string_from_chars(b.as_slice()));
    }
    let r = (string_from_chars(out.as_slice()), steps);
    assert(r.0@ =~= dir_search_report(query@, display_path@, ignore_case, Seq::empty(), 0, 0, false, *c).0);
    assert(string_views(r.1@) =~= dir_search_report(query@, display_path@, ignore_case, Seq::empty(), 0, 0, false, *c).1);
    r
}

/// The reply to a content search of a directory (see
/// `dir_search_report`), and its next steps.
pub fn format_dir_search_report(
    query: &str,
    display_path: &str,
    ignore_case: bool,
    all: &[FileHits],
    offset: usize,
    limit: usize,
    show_hashes: bool,
    c: &SearchCounts,
) -> (r: (String, Vec<String>))
    requires
        offset as int + (limit as int) < usize::MAX,
        total_hits(all@) <= usize::MAX,
    ensures
        (r.0@, string_views(r.1@)) == dir_search_report(
            query@,
            display_path@,
            ignore_case,
            all@,
            offset as nat,
            limit as nat,
            show_hashes,
            *c,
        ),
{
    if all.len() == 0 {
        let r = no_match_text(query, display_path, ignore_case, c);
        return r;
    }
    let hits = count_hits(all);
    let total = all.len();
    let (start, end) = page_bounds(total, offset, limit);
    proof {
        crate::grep::lemma_page_of_bounds(all@, offset as int, limit as int, start as int, end as int);
    }
    let mut out: Vec<char> = Vec::new();
    push_str(&mut out, "**🔍 Directory Search: ");
    push_dec(&mut out, hits as u64);
    push_str(&mut out, " match(es) in ");
    push_dec(&mut out, total as u64);
    push_str(&mut out, " file(s)** (searched ");
    push_dec(&mut out, c.files_searched as u64);
    push_str(&mut out, " files)\nPattern: `");
    push_str(&mut out, query);
    push_str(&mut out, "`  Path: `");
    push_str(&mut out, display_path);
    push_str(&mut out, "`\nOptions: ");
    if ignore_case {
        push_str(&mut out, "case-insensitive");
    } else {
        push_str(&mut out, "case-sensitive");
    }
    push_str(&mut out, "\n\n");
    let ghost head = out@;
    let mut i = start;
    assert(all@.subrange(start as int, start as int) =~= Seq::<FileHits>::empty());
    while i < end
        invariant
            start <= i <= end,
            end <= all.len(),
            out@ == head + file_blocks(all@.subrange(start as int, i as int)),
        decreases end - i,
    {
        push_file_block(&mut out, &all[i]);
        proof {
            let sub = all@.subrange(start as int, i + 1);
            assert(sub.drop_last() =~= all@.subrange(start as int, i as int));
            assert(sub.last() == all@[i as int]);
        }
        i += 1;
    }
    let ghost blocks_end = out@;
    push_dir_page_note(&mut out, offset, end - start, total, limit);
    let ghost note_end = out@;
    if c.heavy_dirs > 0 || c.gitignored_dirs > 0 || c.large_files > 0 || c.binary_files > 0 {
        out.push('\n');
    }
    let ghost gap_end = out@;
    push_dir_notes(&mut out, c.heavy_dirs, c.gitignored_dirs);
    push_file_notes(&mut out, c.large_files, c.binary_files, c.max_size);
    let mut steps: Vec<String> = Vec::new();
    steps.push("Use search with a specific file path to see all matches in that file".to_string());
    if show_hashes {
        steps.push("Use the returned anchors with editFiles; add endAnchor for range replacement/deletion".to_string());
    } else {
        steps.push("Run with `showLineAnchors: true` to get anchors for targeted editing tools.".to_string());
    }
    let r = (string_from_chars(out.as_slice()), steps);
    assert(r.0@ =~= dir_search_report(query@, display_path@, ignore_case, all@, offset as nat, limit as nat, show_hashes, *c).0);
    assert(string_views(r.1@) =~= dir_search_report(query@, display_path@, ignore_case, all@, offset as nat, limit as nat, show_hashes, *c).1);
    r
}

// ---------------------------------------------------------------------------
// Refusals of a single-file content search
// ---------------------------------------------------------------------------

/// The refusal to search a file larger than the limit.
pub fn file_too_large_message(size: u64, max_size: u64) -> (r: (String, Vec<String>))
    ensures
        r.0@ == "Failed to search file: file size "@ + file_size_text(size as nat) + " exceeds the search limit of "@
            + file_size_text(max_size as nat) + seq!['.'],
        string_views(r.1@) == seq![
            "Search a smaller file or narrow the directory before searching contents"@,
            "Use readFile or listDirectory first to inspect large generated artifacts"@,
        ],
{
    let mut m: Vec<char> = Vec::new();
    push_str(&mut m, "Failed to search file: file size ");
    let a = format_file_size(size);
    push_str(&mut m, a.as_str());
    push_str(&mut m, " exceeds the search limit of ");
    let b = format_file_size(max_size);
    push_str(&mut m, b.as_str());
    m.push('.');
    let mut g: Vec<String> = Vec::new();
    g.push("Search a smaller file or narrow the directory before searching contents".to_string());
    g.push("Use readFile or listDirectory first to inspect large generated artifacts".to_string());
    let r = (string_from_chars(m.as_slice()), g);
    assert(r.0@ =~= "Failed to search file: file size "@ + file_size_text(size as nat) + " exceeds the search limit of "@
        + file_size_text(max_size as nat) + seq!['.']);
    assert(string_views(r.1@) =~= seq![
        "Search a smaller file or narrow the directory before searching contents"@,
        "Use readFile or listDirectory first to inspect large generated artifacts"@,
    ]);
    r
}

/// The refusal to search a file that looks binary.
pub fn binary_file_message(display_path: &str) -> (r: (String, Vec<String>))
    ensures
        r.0@ == "Failed to search file: `"@ + display_path@ + "` appears to be binary data."@,
        string_views(r.1@) == seq![
            "Search text files instead of binary artifacts"@,
            "Use filePattern to narrow the directory before searching contents"@,
        ],
{
    let mut m: Vec<char> = Vec::new();
    push_str(&mut m, "Failed to search file: `");
    push_str(&mut m, display_path);
    push_str(&mut m, "` appears to be binary data.");
    let mut g: Vec<String> = Vec::new();
    g.push("Search text files instead of binary artifacts".to_string());
    g.push("Use filePattern to narrow the directory before searching contents".to_string());
    let r = (string_from_chars(m.as_slice()), g);
    assert(string_views(r.1@) =~= seq![
        "Search text files instead of binary artifacts"@,
        "Use filePattern to narrow the directory before searching contents"@,
    ]);
    r
}

// ---------------------------------------------------------------------------
// Nested .gitignore files
// ---------------------------------------------------------------------------

/// What one `.gitignore` file says of a path.
#[derive(Clone, Copy, PartialEq, Eq, Structural)]
pub enum GitignoreVerdict {
    /// No rule of the file matches the path.
    Unmatched,
    /// The last matching rule ignores it.
    Ignore,
    /// The last matching rule is a `!` exception.
    Whitelist,
}

/// Whether a path is ignored, given what the `.gitignore` files of its
/// scope say of it, from the search root down to the path's own
/// directory: the deepest file that matches decides; none matching leaves
/// it searched.
pub open spec fn ignored_by(verdicts: Seq<GitignoreVerdict>) -> bool
    decreases verdicts.len(),
{
    if verdicts.len() == 0 {
        false
    } else {
        match verdicts.last() {
            GitignoreVerdict::Ignore => true,
            GitignoreVerdict::Whitelist => false,
            GitignoreVerdict::Unmatched => ignored_by(verdicts.drop_last()),
        }
    }
}

/// Combines the verdicts of the `.gitignore` files in scope, outermost
/// first (see `ignored_by`).
pub fn scoped_gitignore_decision(verdicts: &[GitignoreVerdict]) -> (r: bool)
    ensures
        r == ignored_by(verdicts@),
{
    let mut ignored = false;
    let mut i: usize = 0;
    while i < verdicts.len()
        invariant
            i <= verdicts@.len(),
            ignored == ignored_by(verdicts@.take(i as int)),
        decreases verdicts@.len() - i,
    {
        assert(verdicts@.take(i + 1).drop_last() =~= verdicts@.take(i as int));
        match verdicts[i] {
            GitignoreVerdict::Ignore => ignored = true,
            GitignoreVerdict::Whitelist => ignored = false,
            GitignoreVerdict::Unmatched => {},
        }
        i += 1;
    }
    assert(verdicts@.take(verdicts@.len() as int) =~= verdicts@);
    ignored
}

// ---------------------------------------------------------------------------
// Internal artifacts
// ---------------------------------------------------------------------------

/// A path, relative to the workspace root with `/` between components,
/// that lies in one of the workspace's internal directories
/// (`.libragent/tmp`, process outputs; `.libragent/exports`, exported
/// files), which searches and listings leave out.
pub open spec fn is_internal_artifact(rel: Seq<char>) -> bool {
    ||| rel == ".libragent/tmp"@
    ||| crate::text::starts_with(rel, ".libragent/tmp/"@)
    ||| rel == ".libragent/exports"@
    ||| crate::text::starts_with(rel, ".libragent/exports/"@)
}

/// Whether a workspace-relative path lies in an internal directory (see
/// `is_internal_artifact`).
pub fn is_internal_artifact_path(rel: &str) -> (r: bool)
    ensures
        r == is_internal_artifact(rel@),
{
    let c = chars_of(rel);
    let s = c.as_slice();
    crate::text::str_eq(rel, ".libragent/tmp") || crate::text::starts_with_exec(s, chars_of(".libragent/tmp/").as_slice())
        || crate::text::str_eq(rel, ".libragent/exports") || crate::text::starts_with_exec(
        s,
        chars_of(".libragent/exports/").as_slice(),
    )
}

} // verus!
