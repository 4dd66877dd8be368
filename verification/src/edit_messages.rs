//! The messages and guidance of an edit batch refused for overlapping
//! edits or stale anchors, or that could not be written.
use vstd::prelude::*;
use crate::text::{dec, join, join_chars, push_chars, push_dec, push_str, string_from_chars};
use crate::processes::GuidedMessage;
use crate::edit::{OverlapError, string_views};
use crate::edit_prepare::{AnchorError, PrepareError};

verus! {

/// The message of a refused batch for the file at `path`.
pub open spec fn prepare_error_text(path: Seq<char>, e: PrepareError) -> Seq<char> {
    match e {
        PrepareError::Overlap(OverlapError::ConflictingTopInserts { first, second }) => "Conflicting edits: edit #"@ + dec(first as nat) + " and edit #"@ + dec(second as nat) + " both insert at the beginning of the file"@,
        PrepareError::Overlap(OverlapError::Overlapping { first, second }) => "Overlapping edits: edit #"@ + dec(first as nat) + " overlaps with edit #"@ + dec(second as nat),
        PrepareError::Anchor(AnchorError::LineOutOfRange { line, line_count }) => "File '"@ + path + "': "@ + "line "@ + dec(line as nat) + " does not exist (file has "@ + dec(line_count as nat) + " lines)"@,
        PrepareError::Anchor(AnchorError::EndLineOutOfRange { line, line_count }) => "File '"@ + path + "': "@ + "end line "@ + dec(line as nat) + " does not exist (file has "@ + dec(line_count as nat) + " lines)"@,
        PrepareError::Anchor(AnchorError::InvalidAnchor { line }) => "File '"@ + path + "': "@ + "invalid anchor for line "@ + dec(line as nat) + ": expected 6-character hexadecimal code"@,
        PrepareError::Anchor(AnchorError::StaleAnchor { line }) => "File '"@ + path + "': "@ + "STALE ANCHOR on line "@ + dec(line as nat) + " (current line content changed)"@,
        PrepareError::Anchor(AnchorError::StalePrefix { line }) => "File '"@ + path + "': "@ + "STALE ANCHOR on line "@ + dec(line as nat) + " (earlier content changed before this line)"@,
        PrepareError::Anchor(AnchorError::InvalidEndAnchor { line }) => "File '"@ + path + "': "@ + "invalid endAnchor for line "@ + dec(line as nat) + ": expected 6-character hexadecimal code"@,
        PrepareError::Anchor(AnchorError::StaleEndAnchor { line }) => "File '"@ + path + "': "@ + "STALE END ANCHOR on line "@ + dec(line as nat) + " (range boundary changed)"@,
        PrepareError::Anchor(AnchorError::StaleEndPrefix { line }) => "File '"@ + path + "': "@ + "STALE END ANCHOR on line "@ + dec(line as nat) + " (earlier content changed before range boundary)"@,
    }
}

/// The guidance shown with a refused batch.
pub open spec fn prepare_error_guidance(e: PrepareError) -> Seq<Seq<char>> {
    match e {
        PrepareError::Overlap(OverlapError::ConflictingTopInserts { .. }) => seq!["Only one insert_after edit with startLine 0 is allowed per file"@],
        PrepareError::Overlap(OverlapError::Overlapping { .. }) => seq!["Each line can only be covered by one edit per file"@],
        PrepareError::Anchor(AnchorError::LineOutOfRange { .. }) => Seq::empty(),
        PrepareError::Anchor(AnchorError::EndLineOutOfRange { .. }) => Seq::empty(),
        PrepareError::Anchor(AnchorError::InvalidAnchor { .. }) => seq!["Run readFile(showLineAnchors=true) or search(showLineAnchors=true) again"@, "Copy only the 6-character anchor from the returned line format N:anchor|content. Example: from '42:a31f2c|let x = 1;', pass only 'a31f2c'."@],
        PrepareError::Anchor(AnchorError::StaleAnchor { .. }) => seq!["Run readFile with showLineAnchors=true to get current anchors"@, "Rebuild the edit using the latest anchor"@],
        PrepareError::Anchor(AnchorError::StalePrefix { .. }) => seq!["Run readFile with showLineAnchors=true to get current anchors"@, "Rebuild the edit using the latest anchor"@],
        PrepareError::Anchor(AnchorError::InvalidEndAnchor { .. }) => seq!["Run readFile(showLineAnchors=true) or search(showLineAnchors=true) again"@, "Copy only the 6-character endAnchor from the returned line format N:anchor|content. Example: from '42:a31f2c|let x = 1;', pass only 'a31f2c'."@],
        PrepareError::Anchor(AnchorError::StaleEndAnchor { .. }) => seq!["Run readFile with showLineAnchors=true to get the current end anchor"@, "Rebuild the edit with an updated endAnchor"@],
        PrepareError::Anchor(AnchorError::StaleEndPrefix { .. }) => seq!["Run readFile with showLineAnchors=true to get the current end anchor"@, "Rebuild the edit with an updated endAnchor"@],
    }
}

/// The message of a refused batch for the file at `path`.
pub fn prepare_error_message(path: &str, e: &PrepareError) -> (r: String)
    ensures
        r@ == prepare_error_text(path@, *e),
{
    let mut m: Vec<char> = Vec::new();
    match *e {
        PrepareError::Overlap(OverlapError::ConflictingTopInserts { first, second }) => {
            push_str(&mut m, "Conflicting edits: edit #");
            push_dec(&mut m, first as u64);
            push_str(&mut m, " and edit #");
            push_dec(&mut m, second as u64);
            push_str(&mut m, " both insert at the beginning of the file");
        },
        PrepareError::Overlap(OverlapError::Overlapping { first, second }) => {
            push_str(&mut m, "Overlapping edits: edit #");
            push_dec(&mut m, first as u64);
            push_str(&mut m, " overlaps with edit #");
            push_dec(&mut m, second as u64);
        },
        PrepareError::Anchor(AnchorError::LineOutOfRange { line, line_count }) => {
            push_str(&mut m, "File '");
            push_str(&mut m, path);
            push_str(&mut m, "': ");
            push_str(&mut m, "line ");
            push_dec(&mut m, line as u64);
            push_str(&mut m, " does not exist (file has ");
            push_dec(&mut m, line_count as u64);
            push_str(&mut m, " lines)");
        },
        PrepareError::Anchor(AnchorError::EndLineOutOfRange { line, line_count }) => {
            push_str(&mut m, "File '");
            push_str(&mut m, path);
            push_str(&mut m, "': ");
            push_str(&mut m, "end line ");
            push_dec(&mut m, line as u64);
            push_str(&mut m, " does not exist (file has ");
            push_dec(&mut m, line_count as u64);
            push_str(&mut m, " lines)");
        },
        PrepareError::Anchor(AnchorError::InvalidAnchor { line }) => {
            push_str(&mut m, "File '");
            push_str(&mut m, path);
            push_str(&mut m, "': ");
            push_str(&mut m, "invalid anchor for line ");
            push_dec(&mut m, line as u64);
            push_str(&mut m, ": expected 6-character hexadecimal code");
        },
        PrepareError::Anchor(AnchorError::StaleAnchor { line }) => {
            push_str(&mut m, "File '");
            push_str(&mut m, path);
            push_str(&mut m, "': ");
            push_str(&mut m, "STALE ANCHOR on line ");
            push_dec(&mut m, line as u64);
            push_str(&mut m, " (current line content changed)");
        },
        PrepareError::Anchor(AnchorError::StalePrefix { line }) => {
            push_str(&mut m, "File '");
            push_str(&mut m, path);
            push_str(&mut m, "': ");
            push_str(&mut m, "STALE ANCHOR on line ");
            push_dec(&mut m, line as u64);
            push_str(&mut m, " (earlier content changed before this line)");
        },
        PrepareError::Anchor(AnchorError::InvalidEndAnchor { line }) => {
            push_str(&mut m, "File '");
            push_str(&mut m, path);
            push_str(&mut m, "': ");
            push_str(&mut m, "invalid endAnchor for line ");
            push_dec(&mut m, line as u64);
            push_str(&mut m, ": expected 6-character hexadecimal code");
        },
        PrepareError::Anchor(AnchorError::StaleEndAnchor { line }) => {
            push_str(&mut m, "File '");
            push_str(&mut m, path);
            push_str(&mut m, "': ");
            push_str(&mut m, "STALE END ANCHOR on line ");
            push_dec(&mut m, line as u64);
            push_str(&mut m, " (range boundary changed)");
        },
        PrepareError::Anchor(AnchorError::StaleEndPrefix { line }) => {
            push_str(&mut m, "File '");
            push_str(&mut m, path);
            push_str(&mut m, "': ");
            push_str(&mut m, "STALE END ANCHOR on line ");
            push_dec(&mut m, line as u64);
            push_str(&mut m, " (earlier content changed before range boundary)");
        },
    }
    assert(m@ =~= prepare_error_text(path@, *e));
    string_from_chars(m.as_slice())
}

/// The guidance shown with a refused batch.
pub fn prepare_error_guidance_lines(e: &PrepareError) -> (r: Vec<String>)
    ensures
        string_views(r@) == prepare_error_guidance(*e),
{
    let mut g: Vec<String> = Vec::new();
    match *e {
        PrepareError::Overlap(OverlapError::ConflictingTopInserts { .. }) => {
            g.push("Only one insert_after edit with startLine 0 is allowed per file".to_string());
        },
        PrepareError::Overlap(OverlapError::Overlapping { .. }) => {
            g.push("Each line can only be covered by one edit per file".to_string());
        },
        PrepareError::Anchor(AnchorError::LineOutOfRange { .. }) => {
        },
        PrepareError::Anchor(AnchorError::EndLineOutOfRange { .. }) => {
        },
        PrepareError::Anchor(AnchorError::InvalidAnchor { .. }) => {
            g.push("Run readFile(showLineAnchors=true) or search(showLineAnchors=true) again".to_string());
            g.push("Copy only the 6-character anchor from the returned line format N:anchor|content. Example: from '42:a31f2c|let x = 1;', pass only 'a31f2c'.".to_string());
        },
        PrepareError::Anchor(AnchorError::StaleAnchor { .. }) => {
            g.push("Run readFile with showLineAnchors=true to get current anchors".to_string());
            g.push("Rebuild the edit using the latest anchor".to_string());
        },
        PrepareError::Anchor(AnchorError::StalePrefix { .. }) => {
            g.push("Run readFile with showLineAnchors=true to get current anchors".to_string());
            g.push("Rebuild the edit using the latest anchor".to_string());
        },
        PrepareError::Anchor(AnchorError::InvalidEndAnchor { .. }) => {
            g.push("Run readFile(showLineAnchors=true) or search(showLineAnchors=true) again".to_string());
            g.push("Copy only the 6-character endAnchor from the returned line format N:anchor|content. Example: from '42:a31f2c|let x = 1;', pass only 'a31f2c'.".to_string());
        },
        PrepareError::Anchor(AnchorError::StaleEndAnchor { .. }) => {
            g.push("Run readFile with showLineAnchors=true to get the current end anchor".to_string());
            g.push("Rebuild the edit with an updated endAnchor".to_string());
        },
        PrepareError::Anchor(AnchorError::StaleEndPrefix { .. }) => {
            g.push("Run readFile with showLineAnchors=true to get the current end anchor".to_string());
            g.push("Rebuild the edit with an updated endAnchor".to_string());
        },
    }
    assert(string_views(g@) =~= prepare_error_guidance(*e));
    g
}

/// The refusal when writing one file of a batch failed: which file and
/// why, whether the files written before it were restored (naming each
/// one that could not be, with its error), and what to check.
pub open spec fn batch_write_failed(path: Seq<char>, error: Seq<char>, rollback_failures: Seq<Seq<char>>) -> (Seq<char>, Seq<Seq<char>>) {
    (
        "Failed to write '"@ + path + "': "@ + error,
        seq![
            if rollback_failures.len() == 0 {
                "Any earlier writes in this request were rolled back."@
            } else {
                "Rollback failed for: "@ + join(rollback_failures, ", "@)
            },
            "Check file permissions and available disk space"@,
            "Rerun readFile(showLineAnchors=true) before retrying if files may have changed"@,
        ],
    )
}

/// One file that could not be restored: its path and the error.
pub open spec fn rollback_failure(path: Seq<char>, error: Seq<char>) -> Seq<char> {
    path + " ("@ + error + seq![')']
}

pub fn rollback_failure_text(path: &str, error: &str) -> (r: String)
    ensures
        r@ == rollback_failure(path@, error@),
{
    let mut m: Vec<char> = Vec::new();
    push_str(&mut m, path);
    push_str(&mut m, " (");
    push_str(&mut m, error);
    m.push(')');
    assert(m@ =~= rollback_failure(path@, error@));
    string_from_chars(m.as_slice())
}

pub fn batch_write_failed_message(path: &str, error: &str, rollback_failures: &[String]) -> (r: GuidedMessage)
    ensures
        (r.message@, string_views(r.guidance@)) == batch_write_failed(path@, error@, string_views(rollback_failures@)),
{
    let mut m: Vec<char> = Vec::new();
    push_str(&mut m, "Failed to write '");
    push_str(&mut m, path);
    push_str(&mut m, "': ");
    push_str(&mut m, error);
    let note = if rollback_failures.len() == 0 {
        "Any earlier writes in this request were rolled back.".to_string()
    } else {
        let parts = crate::edit::lines_from_strings(rollback_failures);
        let mut sep: Vec<char> = Vec::new();
        push_str(&mut sep, ", ");
        let j = join_chars(&parts, sep.as_slice());
        let mut n: Vec<char> = Vec::new();
        push_str(&mut n, "Rollback failed for: ");
        push_chars(&mut n, j.as_slice());
        string_from_chars(n.as_slice())
    };
    let mut g: Vec<String> = Vec::new();
    g.push(note);
    g.push("Check file permissions and available disk space".to_string());
    g.push("Rerun readFile(showLineAnchors=true) before retrying if files may have changed".to_string());
    let r = GuidedMessage { message: string_from_chars(m.as_slice()), guidance: g };
    let ghost want = batch_write_failed(path@, error@, string_views(rollback_failures@));
    assert(r.message@ =~= want.0);
    assert(string_views(r.guidance@) =~= want.1);
    r
}

} // verus!
