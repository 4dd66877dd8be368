//! The report of a successful multi-file edit: per-file change summaries,
//! the anchored diff, the fresh anchors, and the suggested next steps.
use vstd::prelude::*;
use crate::text::{dec, join, lines_of, push_chars, push_dec, push_str, seqs_of, split_lines, chars_of, string_from_chars, join_chars};
use crate::edit::{EditAction, LineEdit, replacement_count, string_views};
use crate::edit_prepare::PreparedFileEdit;
use crate::edit_report::{build_diff_with_anchors, diff_of, prepared};

verus! {

/// How one file fared in a batch of edits.
pub struct FileEditCounts {
    pub path: String,
    pub edit_count: usize,
    pub line_count_before: usize,
    pub line_count_after: usize,
}

/// The outcome of a successful multi-file edit: the message shown, the
/// suggested next steps and the per-file numbers.
pub struct EditFilesReport {
    pub message: String,
    pub next_actions: Vec<String>,
    pub file_count: usize,
    pub edit_count: usize,
    pub files: Vec<FileEditCounts>,
}

/// One line of a file's change summary.
pub open spec fn edit_summary_line(e: LineEdit) -> Seq<char> {
    match e.action {
        EditAction::InsertAfter => "  Insert after line "@ + dec(e.start_line as nat) + ": "@ + dec(
            replacement_count(e),
        ) + " line(s)"@,
        EditAction::Delete => "  Delete lines "@ + dec(e.start_line as nat) + "-"@ + dec(
            e.end_line as nat,
        ),
        EditAction::Replace => "  Replace lines "@ + dec(e.start_line as nat) + "-"@ + dec(
            e.end_line as nat,
        ) + ": "@ + dec(replacement_count(e)) + " line(s)"@,
    }
}

/// A file's change summary: one line per edit, in input order.
pub open spec fn edits_summary(es: Seq<LineEdit>) -> Seq<char> {
    join(Seq::new(es.len(), |i: int| edit_summary_line(es[i])), seq!['\n'])
}

/// The anchors part of a file's section.
pub open spec fn anchors_section(secs: Seq<Seq<char>>) -> Seq<char> {
    if secs.len() == 0 {
        "\n\nAnchor refresh: no new anchors were generated because these edits only removed existing lines."@
    } else {
        "\n\nNew anchors:\n```\n"@ + join(secs, "\n...\n"@) + "\n```"@
    }
}

/// The section of the report for one file.
pub open spec fn file_section(b: PreparedFileEdit) -> Seq<char> {
    "File: '"@ + b.path@ + "'\nChanges:\n"@ + edits_summary(b.edits@) + "\nSummary: "@ + dec(
        b.original_line_count as nat,
    ) + " lines in, "@ + dec(lines_of(b.new_content@).len()) + " lines out"@ + "\n\nDiff:\n```diff\n"@
        + diff_of(b) + "\n```"@ + anchors_section(string_views(b.new_hash_sections@))
}

/// The number of edits over all batches.
pub open spec fn total_edits(bs: Seq<PreparedFileEdit>) -> nat
    decreases bs.len(),
{
    if bs.len() == 0 {
        0
    } else {
        total_edits(bs.drop_last()) + bs.last().edits@.len()
    }
}

/// Whether any batch produced fresh anchors.
pub open spec fn any_new_anchors(bs: Seq<PreparedFileEdit>) -> bool {
    exists|i: int| 0 <= i < bs.len() && (#[trigger] bs[i]).new_hash_sections@.len() > 0
}

/// The report message.
pub open spec fn report_message(bs: Seq<PreparedFileEdit>) -> Seq<char> {
    "Applied "@ + dec(total_edits(bs)) + " edit(s) across "@ + dec(bs.len()) + " file(s)\n\n"@ + join(
        Seq::new(bs.len(), |i: int| file_section(bs[i])),
        "\n\n"@,
    )
}

/// The suggested next steps.
pub open spec fn next_actions_of(fresh: bool) -> Seq<Seq<char>> {
    if fresh {
        seq![
            "Anchors above are current for the edited ranges — reuse them directly with editFiles for follow-up edits in those same ranges"@,
            "Use readFile only when you need broader context, untouched lines, or fresh anchors outside the ranges shown above"@,
        ]
    } else {
        seq![
            "No new anchors were generated because these edits only removed existing lines"@,
            "Use readFile when you need fresh anchors after the deletion or broader context"@,
        ]
    }
}

fn push_edit_summary_line(out: &mut Vec<char>, e: &LineEdit)
    ensures
        final(out)@ == old(out)@ + edit_summary_line(*e),
{
    match e.action {
        EditAction::InsertAfter => {
            push_str(out, "  Insert after line ");
            push_dec(out, e.start_line as u64);
            push_str(out, ": ");
            let c = e.replacement_line_count();
            push_dec(out, c as u64);
            push_str(out, " line(s)");
        },
        EditAction::Delete => {
            push_str(out, "  Delete lines ");
            push_dec(out, e.start_line as u64);
            push_str(out, "-");
            push_dec(out, e.end_line as u64);
        },
        EditAction::Replace => {
            push_str(out, "  Replace lines ");
            push_dec(out, e.start_line as u64);
            push_str(out, "-");
            push_dec(out, e.end_line as u64);
            push_str(out, ": ");
            let c = e.replacement_line_count();
            push_dec(out, c as u64);
            push_str(out, " line(s)");
        },
    }
    assert(out@ =~= old(out)@ + edit_summary_line(*e));
}

fn push_edits_summary(out: &mut Vec<char>, es: &[LineEdit])
    ensures
        final(out)@ == old(out)@ + edits_summary(es@),
{
    let mut lines: Vec<Vec<char>> = Vec::new();
    let mut i: usize = 0;
    while i < es.len()
        invariant
            i <= es@.len(),
            seqs_of(lines@) == Seq::new(i as nat, |j: int| edit_summary_line(es@[j])),
        decreases es@.len() - i,
    {
        let mut l: Vec<char> = Vec::new();
        let e = &es[i];
        assert(*e == es@[i as int]);
        push_edit_summary_line(&mut l, e);
        assert(l@ =~= Seq::<char>::empty() + edit_summary_line(es@[i as int]));
        assert(l@ =~= edit_summary_line(es@[i as int]));
        let ghost b = seqs_of(lines@);
        lines.push(l);
        assert(seqs_of(lines@) =~= b.push(edit_summary_line(es@[i as int])));
        assert(seqs_of(lines@) =~= Seq::new((i + 1) as nat, |j: int| edit_summary_line(es@[j])));
        i += 1;
    }
    let nl = ['\n'];
    assert(nl@ =~= seq!['\n']);
    let joined = join_chars(&lines, &nl);
    assert(seqs_of(lines@) =~= Seq::new(es@.len(), |j: int| edit_summary_line(es@[j])));
    push_chars(out, joined.as_slice());
}

fn push_anchors_section(out: &mut Vec<char>, secs: &Vec<String>)
    ensures
        final(out)@ == old(out)@ + anchors_section(string_views(secs@)),
{
    if secs.len() == 0 {
        push_str(out, "\n\nAnchor refresh: no new anchors were generated because these edits only removed existing lines.");
    } else {
        let ghost start = out@;
        push_str(out, "\n\nNew anchors:\n```\n");
        let parts = crate::edit::lines_from_strings(secs.as_slice());
        let mut sep: Vec<char> = Vec::new();
        push_str(&mut sep, "\n...\n");
        assert(sep@ =~= "\n...\n"@);
        let j = join_chars(&parts, sep.as_slice());
        push_chars(out, j.as_slice());
        push_str(out, "\n```");
        assert(out@ =~= start + anchors_section(string_views(secs@)));
    }
}

/// `"{n} lines in, {m} lines out"` for a batch.
fn push_line_counts(out: &mut Vec<char>, b: &PreparedFileEdit)
    ensures
        final(out)@ == old(out)@ + dec(b.original_line_count as nat) + " lines in, "@ + dec(lines_of(b.new_content@).len()) + " lines out"@,
{
    let ghost start = out@;
    push_dec(out, b.original_line_count as u64);
    push_str(out, " lines in, ");
    let nc = chars_of(b.new_content.as_str());
    let nls = split_lines(nc.as_slice());
    push_dec(out, nls.len() as u64);
    push_str(out, " lines out");
    assert(out@ =~= start + dec(b.original_line_count as nat) + " lines in, "@ + dec(lines_of(b.new_content@).len()) + " lines out"@);
}

fn push_file_section(out: &mut Vec<char>, b: &PreparedFileEdit)
    requires
        prepared(*b),
    ensures
        final(out)@ == old(out)@ + file_section(*b),
{
    let ghost start = out@;
    push_str(out, "File: '");
    push_str(out, b.path.as_str());
    push_str(out, "'\nChanges:\n");
    push_edits_summary(out, b.edits.as_slice());
    push_str(out, "\nSummary: ");
    let ghost mid = out@;
    push_line_counts(out, b);
    push_str(out, "\n\nDiff:\n```diff\n");
    let d = build_diff_with_anchors(b);
    push_chars(out, d.as_slice());
    push_str(out, "\n```");
    push_anchors_section(out, &b.new_hash_sections);
    assert(out@ =~= start + file_section(*b));
}

/// Build the report of a successful edit of the given prepared batches.
pub fn build_edit_files_success(prepared_batches: &[PreparedFileEdit]) -> (r: EditFilesReport)
    requires
        forall|i: int| 0 <= i < prepared_batches@.len() ==> prepared(#[trigger] prepared_batches@[i]),
        total_edits(prepared_batches@) <= usize::MAX,
    ensures
        r.message@ == report_message(prepared_batches@),
        string_views(r.next_actions@) == next_actions_of(any_new_anchors(prepared_batches@)),
        r.file_count == prepared_batches@.len(),
        r.edit_count == total_edits(prepared_batches@),
        r.files@.len() == prepared_batches@.len(),
        forall|i: int| 0 <= i < prepared_batches@.len() ==> {
            &&& (#[trigger] r.files@[i]).path@ == prepared_batches@[i].path@
            &&& r.files@[i].edit_count == prepared_batches@[i].edits@.len()
            &&& r.files@[i].line_count_before == prepared_batches@[i].original_line_count
            &&& r.files@[i].line_count_after == lines_of(prepared_batches@[i].new_content@).len()
        },
{
    let bs = prepared_batches;
    let mut total: usize = 0;
    let mut fresh = false;
    let mut sections: Vec<Vec<char>> = Vec::new();
    let mut files: Vec<FileEditCounts> = Vec::new();
    let mut i: usize = 0;
    while i < bs.len()
        invariant
            i <= bs@.len(),
            forall|k: int| 0 <= k < bs@.len() ==> prepared(#[trigger] bs@[k]),
            total_edits(bs@) <= usize::MAX,
            total == total_edits(bs@.take(i as int)),
            fresh == any_new_anchors(bs@.take(i as int)),
            seqs_of(sections@) == Seq::new(i as nat, |k: int| file_section(bs@[k])),
            files@.len() == i,
            forall|k: int| 0 <= k < i ==> {
                &&& (#[trigger] files@[k]).path@ == bs@[k].path@
                &&& files@[k].edit_count == bs@[k].edits@.len()
                &&& files@[k].line_count_before == bs@[k].original_line_count
                &&& files@[k].line_count_after == lines_of(bs@[k].new_content@).len()
            },
        decreases bs@.len() - i,
    {
        proof {
            assert(bs@.take(i + 1).drop_last() =~= bs@.take(i as int));
            lemma_total_edits_prefix(bs@, i + 1);
        }
        let b = &bs[i];
        total = total + b.edits.len();
        if b.new_hash_sections.len() > 0 {
            fresh = true;
        }
        proof {
            let t = bs@.take(i + 1);
            if fresh {
                if b.new_hash_sections@.len() > 0 {
                    assert(t[i as int] == bs@[i as int]);
                } else {
                    let w = choose|k: int| 0 <= k < bs@.take(i as int).len() && (#[trigger] bs@.take(i as int)[k]).new_hash_sections@.len() > 0;
                    assert(t[w] == bs@.take(i as int)[w]);
                }
            } else {
                assert forall|k: int| 0 <= k < t.len() implies (#[trigger] t[k]).new_hash_sections@.len() == 0 by {
                    if k < i {
                        assert(t[k] == bs@.take(i as int)[k]);
                    }
                }
            }
        }
        let mut s: Vec<char> = Vec::new();
        push_file_section(&mut s, b);
        assert(s@ =~= file_section(bs@[i as int]));
        let ghost before = seqs_of(sections@);
        sections.push(s);
        assert(seqs_of(sections@) =~= before.push(file_section(bs@[i as int])));
        assert(seqs_of(sections@) =~= Seq::new((i + 1) as nat, |k: int| file_section(bs@[k])));
        let nc = chars_of(b.new_content.as_str());
        let nls = split_lines(nc.as_slice());
        files.push(FileEditCounts {
            path: string_from_chars(chars_of(b.path.as_str()).as_slice()),
            edit_count: b.edits.len(),
            line_count_before: b.original_line_count,
            line_count_after: nls.len(),
        });
        i += 1;
    }
    assert(bs@.take(bs@.len() as int) =~= bs@);
    let mut msg: Vec<char> = Vec::new();
    push_str(&mut msg, "Applied ");
    push_dec(&mut msg, total as u64);
    push_str(&mut msg, " edit(s) across ");
    push_dec(&mut msg, bs.len() as u64);
    push_str(&mut msg, " file(s)\n\n");
    let mut sep: Vec<char> = Vec::new();
    push_str(&mut sep, "\n\n");
    assert(sep@ =~= "\n\n"@);
    let body = join_chars(&sections, sep.as_slice());
    push_chars(&mut msg, body.as_slice());
    assert(seqs_of(sections@) =~= Seq::new(bs@.len(), |k: int| file_section(bs@[k])));
    assert(body@ == join(Seq::new(bs@.len(), |k: int| file_section(bs@[k])), "\n\n"@));
    assert(msg@ =~= "Applied "@ + dec(total as nat) + " edit(s) across "@ + dec(bs@.len()) + " file(s)\n\n"@ + body@);
    assert(msg@ =~= report_message(bs@));
    let mut next_actions: Vec<String> = Vec::new();
    if fresh {
        next_actions.push("Anchors above are current for the edited ranges — reuse them directly with editFiles for follow-up edits in those same ranges".to_string());
        next_actions.push("Use readFile only when you need broader context, untouched lines, or fresh anchors outside the ranges shown above".to_string());
    } else {
        next_actions.push("No new anchors were generated because these edits only removed existing lines".to_string());
        next_actions.push("Use readFile when you need fresh anchors after the deletion or broader context".to_string());
    }
    assert(string_views(next_actions@) =~= next_actions_of(fresh));
    EditFilesReport {
        message: string_from_chars(msg.as_slice()),
        next_actions,
        file_count: bs.len(),
        edit_count: total,
        files,
    }
}

/// The edit count of a prefix never exceeds that of the whole.
proof fn lemma_total_edits_prefix(bs: Seq<PreparedFileEdit>, n: int)
    requires
        0 <= n <= bs.len(),
    ensures
        total_edits(bs.take(n)) <= total_edits(bs),
    decreases bs.len() - n,
{
    if n < bs.len() {
        lemma_total_edits_prefix(bs, n + 1);
        assert(bs.take(n + 1).drop_last() =~= bs.take(n));
    } else {
        assert(bs.take(n) =~= bs);
    }
}

} // verus!
