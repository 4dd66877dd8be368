//! Deleting one file, and importing files into the workspace: the checks
//! on the request and the text of the replies.
use vstd::prelude::*;
use crate::text::{chars_of, contains_lit, contains_seq, dec, join, join_chars, push_dec, push_str, seqs_of, string_from_chars, trim_chars};
use crate::edit::string_views;
use crate::sizes::{file_size_text, format_file_size};
use crate::processes::GuidedMessage;
use crate::write::opt_view;
use crate::read_args::read_path_outcome;

verus! {

/// Checks the path of a deletion (the checks of a read, with the
/// guidance of a deletion); a refusal other than a missing path comes
/// with its message and guidance.
pub fn check_delete_path(path: Option<&str>) -> (r: Result<String, Option<GuidedMessage>>)
    ensures
        match (r, read_path_outcome(opt_view(path))) {
            (Ok(p), Ok(q)) => p@ == q,
            (Err(None), Err(code)) => code == "path"@,
            (Err(Some(e)), Err(code)) => if code.len() == 0 {
                e.message@ == "Path parameter cannot be empty"@ && string_views(e.guidance@) == seq![
                    "Provide a file path relative to workspace root"@,
                    "Example: {\"path\": \"src/temp.txt\"}"@,
                    "Use listDirectory('.') to see available files"@,
                ]
            } else {
                code == ".."@ && e.message@ == "Path traversal patterns (..) are not allowed"@ && string_views(
                    e.guidance@,
                ) == seq!["Use relative paths from workspace root"@, "Example: 'src/file.txt' instead of '../file.txt'"@]
            },
            _ => false,
        },
{
    let p = match path {
        None => {
            return Err(None);
        },
        Some(p) => p,
    };
    let t = trim_chars(chars_of(p).as_slice());
    if t.len() == 0 {
        let mut g: Vec<String> = Vec::new();
        g.push("Provide a file path relative to workspace root".to_string());
        g.push("Example: {\"path\": \"src/temp.txt\"}".to_string());
        g.push("Use listDirectory('.') to see available files".to_string());
        assert(string_views(g@) =~= seq![
            "Provide a file path relative to workspace root"@,
            "Example: {\"path\": \"src/temp.txt\"}"@,
            "Use listDirectory('.') to see available files"@,
        ]);
        return Err(Some(GuidedMessage { message: "Path parameter cannot be empty".to_string(), guidance: g }));
    }
    if contains_lit(t.as_slice(), "..") {
        let mut g: Vec<String> = Vec::new();
        g.push("Use relative paths from workspace root".to_string());
        g.push("Example: 'src/file.txt' instead of '../file.txt'".to_string());
        assert(string_views(g@) =~= seq![
            "Use relative paths from workspace root"@,
            "Example: 'src/file.txt' instead of '../file.txt'"@,
        ]);
        proof {
            reveal_strlit("..");
        }
        return Err(Some(GuidedMessage { message: "Path traversal patterns (..) are not allowed".to_string(), guidance: g }));
    }
    Ok(string_from_chars(t.as_slice()))
}

/// The refusal to delete a directory.
pub open spec fn directory_refusal(path: Seq<char>) -> (Seq<char>, Seq<Seq<char>>) {
    (
        "'"@ + path + "' is a directory, not a file"@,
        seq![
            "deleteFile can only delete files, not directories"@,
            "Use listDirectory to see directory contents"@,
            "To delete directory contents, delete individual files inside '"@ + path + "'"@,
        ],
    )
}

pub fn directory_refusal_message(path: &str) -> (r: GuidedMessage)
    ensures
        (r.message@, string_views(r.guidance@)) == directory_refusal(path@),
{
    let mut m: Vec<char> = Vec::new();
    push_str(&mut m, "'");
    push_str(&mut m, path);
    push_str(&mut m, "' is a directory, not a file");
    let mut c: Vec<char> = Vec::new();
    push_str(&mut c, "To delete directory contents, delete individual files inside '");
    push_str(&mut c, path);
    push_str(&mut c, "'");
    let mut g: Vec<String> = Vec::new();
    g.push("deleteFile can only delete files, not directories".to_string());
    g.push("Use listDirectory to see directory contents".to_string());
    g.push(string_from_chars(c.as_slice()));
    assert(m@ =~= directory_refusal(path@).0);
    let r = GuidedMessage { message: string_from_chars(m.as_slice()), guidance: g };
    assert(string_views(r.guidance@) =~= directory_refusal(path@).1);
    r
}

/// The reply to a deletion: the file and its size, and how to check or
/// recreate it (`parent` is the directory of the path as given).
pub open spec fn deleted_report(path: Seq<char>, bytes: nat, parent: Seq<char>) -> (Seq<char>, Seq<Seq<char>>) {
    (
        "**✅ File Deleted Successfully**\n\n**File:** `"@ + path + "`\n**Size:** "@ + file_size_text(bytes)
            + "\n\n⚠️ This operation is permanent - the file cannot be recovered through this tool."@,
        seq![
            "Use listDirectory(\""@ + parent + "\") to verify deletion"@,
            "Use writeFile(\""@ + path + "\", content) to create a new file at this path"@,
        ],
    )
}

pub fn deleted_message(path: &str, bytes: u64, parent: &str) -> (r: (String, Vec<String>))
    ensures
        (r.0@, string_views(r.1@)) == deleted_report(path@, bytes as nat, parent@),
{
    let mut m: Vec<char> = Vec::new();
    push_str(&mut m, "**✅ File Deleted Successfully**\n\n**File:** `");
    push_str(&mut m, path);
    push_str(&mut m, "`\n**Size:** ");
    let size = format_file_size(bytes);
    push_str(&mut m, size.as_str());
    push_str(&mut m, "\n\n⚠️ This operation is permanent - the file cannot be recovered through this tool.");
    let mut a: Vec<char> = Vec::new();
    push_str(&mut a, "Use listDirectory(\"");
    push_str(&mut a, parent);
    push_str(&mut a, "\") to verify deletion");
    let mut b: Vec<char> = Vec::new();
    push_str(&mut b, "Use writeFile(\"");
    push_str(&mut b, path);
    push_str(&mut b, "\", content) to create a new file at this path");
    let mut g: Vec<String> = Vec::new();
    g.push(string_from_chars(a.as_slice()));
    g.push(string_from_chars(b.as_slice()));
    let r = (string_from_chars(m.as_slice()), g);
    assert(r.0@ =~= deleted_report(path@, bytes as nat, parent@).0);
    assert(string_views(r.1@) =~= deleted_report(path@, bytes as nat, parent@).1);
    r
}

/// The refusal when the file could not be removed: a permission problem
/// (by kind or by message), or another error with its text.
pub open spec fn delete_failed(path: Seq<char>, permission_kind: bool, error: Seq<char>) -> (Seq<char>, Seq<Seq<char>>) {
    if permission_kind || contains_seq(error, "Permission denied"@) || contains_seq(error, "permission"@) {
        (
            "Permission denied: Cannot delete file"@,
            seq![
                "Check file permissions and ownership"@,
                "Ensure the file is not locked by another process"@,
                "On Windows, close any programs that might have the file open"@,
            ],
        )
    } else {
        (
            error,
            seq![
                "Verify the file exists and is accessible"@,
                "Check if the file is locked by another process"@,
                "Use listDirectory to verify file path: "@ + path,
            ],
        )
    }
}

pub fn delete_failed_message(path: &str, permission_kind: bool, error: &str) -> (r: GuidedMessage)
    ensures
        (r.message@, string_views(r.guidance@)) == delete_failed(path@, permission_kind, error@),
{
    let e = chars_of(error);
    let mut g: Vec<String> = Vec::new();
    if permission_kind || contains_lit(e.as_slice(), "Permission denied") || contains_lit(e.as_slice(), "permission") {
        g.push("Check file permissions and ownership".to_string());
        g.push("Ensure the file is not locked by another process".to_string());
        g.push("On Windows, close any programs that might have the file open".to_string());
        let r = GuidedMessage { message: "Permission denied: Cannot delete file".to_string(), guidance: g };
        assert(string_views(r.guidance@) =~= delete_failed(path@, permission_kind, error@).1);
        r
    } else {
        let mut c: Vec<char> = Vec::new();
        push_str(&mut c, "Use listDirectory to verify file path: ");
        push_str(&mut c, path);
        g.push("Verify the file exists and is accessible".to_string());
        g.push("Check if the file is locked by another process".to_string());
        g.push(string_from_chars(c.as_slice()));
        let r = GuidedMessage { message: error.to_string(), guidance: g };
        assert(string_views(r.guidance@) =~= delete_failed(path@, permission_kind, error@).1);
        r
    }
}

// ---------------------------------------------------------------------------
// Importing files
// ---------------------------------------------------------------------------

/// The report of an import: how many files were imported and which,
/// then (after a blank line when both are present) how many failed and
/// why; and whether every file failed.
pub open spec fn import_report(ok: Seq<Seq<char>>, failed: Seq<Seq<char>>) -> (Seq<char>, bool) {
    let first: Seq<Seq<char>> = if ok.len() > 0 {
        seq!["Successfully imported "@ + dec(ok.len()) + " file(s):"@] + ok.map_values(|s: Seq<char>| "- "@ + s)
    } else {
        Seq::empty()
    };
    let second: Seq<Seq<char>> = if failed.len() > 0 {
        (if first.len() > 0 { seq![Seq::<char>::empty()] } else { Seq::<Seq<char>>::empty() })
            + seq!["Failed to import "@ + dec(failed.len()) + " file(s):"@] + failed.map_values(
            |s: Seq<char>| "- "@ + s,
        )
    } else {
        Seq::empty()
    };
    (join(first + second, seq!['\n']), failed.len() > 0 && ok.len() == 0)
}

fn push_bullets(parts: &mut Vec<Vec<char>>, items: &[String])
    ensures
        seqs_of(final(parts)@) == seqs_of(old(parts)@) + string_views(items@).map_values(|s: Seq<char>| "- "@ + s),
{
    let ghost start = seqs_of(parts@);
    let mut i: usize = 0;
    while i < items.len()
        invariant
            i <= items@.len(),
            seqs_of(parts@) == start + string_views(items@).take(i as int).map_values(|s: Seq<char>| "- "@ + s),
        decreases items@.len() - i,
    {
        let mut b: Vec<char> = Vec::new();
        push_str(&mut b, "- ");
        push_str(&mut b, items[i].as_str());
        let ghost before = seqs_of(parts@);
        parts.push(b);
        assert(seqs_of(parts@) =~= before.push(b@));
        assert(string_views(items@).take(i + 1).map_values(|s: Seq<char>| "- "@ + s) =~= string_views(items@).take(
            i as int,
        ).map_values(|s: Seq<char>| "- "@ + s).push("- "@ + items@[i as int]@));
        i += 1;
    }
    assert(string_views(items@).take(items@.len() as int) =~= string_views(items@));
}

/// The report of an import (see `import_report`) from the messages of
/// the imported and the failed files.
pub fn format_import_report(ok: &[String], failed: &[String]) -> (r: (String, bool))
    ensures
        (r.0@, r.1) == import_report(string_views(ok@), string_views(failed@)),
{
    let ghost okv = string_views(ok@);
    let ghost fv = string_views(failed@);
    let ghost first: Seq<Seq<char>> = if okv.len() > 0 {
        seq!["Successfully imported "@ + dec(okv.len()) + " file(s):"@] + okv.map_values(|s: Seq<char>| "- "@ + s)
    } else {
        Seq::empty()
    };
    let mut parts: Vec<Vec<char>> = Vec::new();
    if ok.len() > 0 {
        let mut h: Vec<char> = Vec::new();
        push_str(&mut h, "Successfully imported ");
        push_dec(&mut h, ok.len() as u64);
        push_str(&mut h, " file(s):");
        parts.push(h);
        assert(seqs_of(parts@) =~= seq!["Successfully imported "@ + dec(okv.len()) + " file(s):"@]);
        push_bullets(&mut parts, ok);
    }
    assert(seqs_of(parts@) =~= first);
    let first_len = parts.len();
    if failed.len() > 0 {
        if first_len > 0 {
            let ghost b0 = seqs_of(parts@);
            parts.push(Vec::new());
            assert(seqs_of(parts@) =~= b0 + seq![Seq::<char>::empty()]);
        }
        let ghost b1 = seqs_of(parts@);
        let mut h: Vec<char> = Vec::new();
        push_str(&mut h, "Failed to import ");
        push_dec(&mut h, failed.len() as u64);
        push_str(&mut h, " file(s):");
        parts.push(h);
        assert(seqs_of(parts@) =~= b1 + seq!["Failed to import "@ + dec(fv.len()) + " file(s):"@]);
        push_bullets(&mut parts, failed);
    }
    let nl = ['\n'];
    assert(nl@ =~= seq!['\n']);
    let j = join_chars(&parts, &nl);
    let r = (string_from_chars(j.as_slice()), failed.len() > 0 && ok.len() == 0);
    assert(seqs_of(parts@) =~= import_report_parts(string_views(ok@), string_views(failed@)));
    r
}

/// The lines of an import report.
pub open spec fn import_report_parts(ok: Seq<Seq<char>>, failed: Seq<Seq<char>>) -> Seq<Seq<char>> {
    let first: Seq<Seq<char>> = if ok.len() > 0 {
        seq!["Successfully imported "@ + dec(ok.len()) + " file(s):"@] + ok.map_values(|s: Seq<char>| "- "@ + s)
    } else {
        Seq::empty()
    };
    let second: Seq<Seq<char>> = if failed.len() > 0 {
        (if first.len() > 0 { seq![Seq::<char>::empty()] } else { Seq::<Seq<char>>::empty() })
            + seq!["Failed to import "@ + dec(failed.len()) + " file(s):"@] + failed.map_values(
            |s: Seq<char>| "- "@ + s,
        )
    } else {
        Seq::empty()
    };
    first + second
}

// ---------------------------------------------------------------------------
// Importing one file
// ---------------------------------------------------------------------------

/// The refusal of an import that lacks its source or destination.
pub open spec fn import_missing(source_missing: bool) -> (Seq<char>, Seq<Seq<char>>) {
    if source_missing {
        (
            "Missing required parameter: srcAbsPath"@,
            seq![
                "Provide the absolute path to the file you want to import"@,
                "Example: {\"srcAbsPath\": \"/home/user/file.txt\", \"destRelPath\": \"imports/file.txt\"}"@,
            ],
        )
    } else {
        (
            "Missing required parameter: destRelPath"@,
            seq![
                "Provide the destination path relative to workspace root"@,
                "Example: \"imports/filename.ext\" or \"src/data/file.txt\""@,
            ],
        )
    }
}

/// Checks that an import names its source and its destination (each
/// `None` when absent or not a string); the source is checked first.
pub fn check_import_file_args(src: Option<&str>, dest: Option<&str>) -> (r: Result<(String, String), GuidedMessage>)
    ensures
        match r {
            Ok((s, d)) => opt_view(src) == Some(s@) && opt_view(dest) == Some(d@),
            Err(g) => (src is None || dest is None) && (g.message@, string_views(g.guidance@)) == import_missing(
                src is None,
            ),
        },
        (r is Ok) <==> (src is Some && dest is Some),
{
    let s = match src {
        Some(s) => s,
        None => {
            let mut g: Vec<String> = Vec::new();
            g.push("Provide the absolute path to the file you want to import".to_string());
            g.push("Example: {\"srcAbsPath\": \"/home/user/file.txt\", \"destRelPath\": \"imports/file.txt\"}".to_string());
            let r = GuidedMessage { message: "Missing required parameter: srcAbsPath".to_string(), guidance: g };
            assert(string_views(r.guidance@) =~= import_missing(true).1);
            return Err(r);
        },
    };
    let d = match dest {
        Some(d) => d,
        None => {
            let mut g: Vec<String> = Vec::new();
            g.push("Provide the destination path relative to workspace root".to_string());
            g.push("Example: \"imports/filename.ext\" or \"src/data/file.txt\"".to_string());
            let r = GuidedMessage { message: "Missing required parameter: destRelPath".to_string(), guidance: g };
            assert(string_views(r.guidance@) =~= import_missing(false).1);
            return Err(r);
        },
    };
    Ok((s.to_string(), d.to_string()))
}

/// The refusal when the source of an import cannot be resolved.
pub open spec fn import_source_not_found(src: Seq<char>) -> (Seq<char>, Seq<Seq<char>>) {
    (
        "Source file not found or cannot be accessed: "@ + src,
        seq![
            "Verify the file path is correct and the file exists"@,
            "Check file permissions and ensure you have read access"@,
            "On Windows, use absolute paths like 'C:\\Users\\...', on Unix like '/home/user/...'"@,
            "Use an absolute path, not a relative path"@,
        ],
    )
}

pub fn import_source_not_found_message(src: &str) -> (r: GuidedMessage)
    ensures
        (r.message@, string_views(r.guidance@)) == import_source_not_found(src@),
{
    let mut m: Vec<char> = Vec::new();
    push_str(&mut m, "Source file not found or cannot be accessed: ");
    push_str(&mut m, src);
    let mut g: Vec<String> = Vec::new();
    g.push("Verify the file path is correct and the file exists".to_string());
    g.push("Check file permissions and ensure you have read access".to_string());
    g.push("On Windows, use absolute paths like 'C:\\Users\\...', on Unix like '/home/user/...'".to_string());
    g.push("Use an absolute path, not a relative path".to_string());
    let r = GuidedMessage { message: string_from_chars(m.as_slice()), guidance: g };
    assert(r.message@ =~= import_source_not_found(src@).0);
    assert(string_views(r.guidance@) =~= import_source_not_found(src@).1);
    r
}

/// The refusal when the source of an import is a directory.
pub open spec fn import_source_is_directory(src: Seq<char>) -> (Seq<char>, Seq<Seq<char>>) {
    (
        "Source path is a directory, not a file: "@ + src,
        seq![
            "Provide the path to a specific file, not a directory"@,
            "To import multiple files, call importFile multiple times"@,
            "To import directory contents, use shell commands (e.g., runShell('cp -r src dest'))"@,
        ],
    )
}

pub fn import_source_is_directory_message(src: &str) -> (r: GuidedMessage)
    ensures
        (r.message@, string_views(r.guidance@)) == import_source_is_directory(src@),
{
    let mut m: Vec<char> = Vec::new();
    push_str(&mut m, "Source path is a directory, not a file: ");
    push_str(&mut m, src);
    let mut g: Vec<String> = Vec::new();
    g.push("Provide the path to a specific file, not a directory".to_string());
    g.push("To import multiple files, call importFile multiple times".to_string());
    g.push("To import directory contents, use shell commands (e.g., runShell('cp -r src dest'))".to_string());
    let r = GuidedMessage { message: string_from_chars(m.as_slice()), guidance: g };
    assert(r.message@ =~= import_source_is_directory(src@).0);
    assert(string_views(r.guidance@) =~= import_source_is_directory(src@).1);
    r
}

/// The reply to an imported file: the resolved source, its size and where
/// it went, then how to look at it.
pub open spec fn imported_file(source: Seq<char>, bytes: nat, dest: Seq<char>) -> (Seq<char>, Seq<Seq<char>>) {
    (
        "✅ Successfully imported "@ + source + " ("@ + dec(bytes) + " bytes) to "@ + dest,
        seq!["Use readFile(\""@ + dest + "\") to view imported content"@, "Use createFile to modify the imported file"@],
    )
}

pub fn imported_file_message(source: &str, bytes: u64, dest: &str) -> (r: GuidedMessage)
    ensures
        (r.message@, string_views(r.guidance@)) == imported_file(source@, bytes as nat, dest@),
{
    let mut m: Vec<char> = Vec::new();
    push_str(&mut m, "✅ Successfully imported ");
    push_str(&mut m, source);
    push_str(&mut m, " (");
    push_dec(&mut m, bytes);
    push_str(&mut m, " bytes) to ");
    push_str(&mut m, dest);
    let mut a: Vec<char> = Vec::new();
    push_str(&mut a, "Use readFile(\"");
    push_str(&mut a, dest);
    push_str(&mut a, "\") to view imported content");
    let mut g: Vec<String> = Vec::new();
    g.push(string_from_chars(a.as_slice()));
    g.push("Use createFile to modify the imported file".to_string());
    let r = GuidedMessage { message: string_from_chars(m.as_slice()), guidance: g };
    assert(r.message@ =~= imported_file(source@, bytes as nat, dest@).0);
    assert(string_views(r.guidance@) =~= imported_file(source@, bytes as nat, dest@).1);
    r
}

/// The refusal when the copy failed, with guidance chosen by what the
/// error says: a clash at the destination, a permission problem, a full
/// disk, or anything else.
pub open spec fn import_failed(dest: Seq<char>, error: Seq<char>) -> (Seq<char>, Seq<Seq<char>>) {
    (
        "Failed to import file: "@ + error,
        if contains_seq(error, "already exists"@) || contains_seq(error, "duplicate"@) {
            seq![
                "File already exists at: "@ + dest,
                "Use createFile to overwrite the existing file"@,
                "Or specify a different destination path with a unique name"@,
            ]
        } else if contains_seq(error, "permission"@) || contains_seq(error, "denied"@) {
            seq![
                "Insufficient permissions to write to destination"@,
                "Check workspace permissions and destination directory access"@,
                "Ensure you have write access to the destination directory"@,
            ]
        } else if contains_seq(error, "space"@) {
            seq!["Insufficient disk space to import file"@, "Free up disk space and try again"@]
        } else {
            seq![
                "Verify source file is accessible and destination path is valid"@,
                "Check workspace configuration and file manager settings"@,
            ]
        },
    )
}

pub fn import_failed_message(dest: &str, error: &str) -> (r: GuidedMessage)
    ensures
        (r.message@, string_views(r.guidance@)) == import_failed(dest@, error@),
{
    let mut m: Vec<char> = Vec::new();
    push_str(&mut m, "Failed to import file: ");
    push_str(&mut m, error);
    let e = chars_of(error);
    let es = e.as_slice();
    let mut g: Vec<String> = Vec::new();
    if contains_lit(es, "already exists") || contains_lit(es, "duplicate") {
        let mut a: Vec<char> = Vec::new();
        push_str(&mut a, "File already exists at: ");
        push_str(&mut a, dest);
        g.push(string_from_chars(a.as_slice()));
        g.push("Use createFile to overwrite the existing file".to_string());
        g.push("Or specify a different destination path with a unique name".to_string());
    } else if contains_lit(es, "permission") || contains_lit(es, "denied") {
        g.push("Insufficient permissions to write to destination".to_string());
        g.push("Check workspace permissions and destination directory access".to_string());
        g.push("Ensure you have write access to the destination directory".to_string());
    } else if contains_lit(es, "space") {
        g.push("Insufficient disk space to import file".to_string());
        g.push("Free up disk space and try again".to_string());
    } else {
        g.push("Verify source file is accessible and destination path is valid".to_string());
        g.push("Check workspace configuration and file manager settings".to_string());
    }
    let r = GuidedMessage { message: string_from_chars(m.as_slice()), guidance: g };
    assert(r.message@ =~= import_failed(dest@, error@).0);
    assert(string_views(r.guidance@) =~= import_failed(dest@, error@).1);
    r
}

} // verus!
