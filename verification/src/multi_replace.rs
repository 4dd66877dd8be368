//! Several exact-text replacements in one file, all or none: the checks on
//! each pair, the validation of every pattern against the text as the
//! earlier replacements leave it, and the replies.
use vstd::prelude::*;
use crate::text::{chars_of, count_matches, dec, join, join_chars, lines_of, push_chars, push_dec, push_str, seqs_of, slice_chars, split_lines, string_from_chars, trim, trim_chars};
use crate::read::{byte_len, byte_len_exec};
use crate::search::{char_index_at, char_index_of, is_char_boundary};
use crate::edit::string_views;
use crate::processes::GuidedMessage;
use crate::replace::count_occurrences;
use crate::str_replace::{replace_first, replaced_first};

verus! {

/// At most this many replacements are made in one request.
pub const MAX_REPLACEMENTS: usize = 50usize;

// ---------------------------------------------------------------------------
// The chain of replacements
// ---------------------------------------------------------------------------

/// The text after the replacements in order, each made when its old text
/// occurs exactly once in the text as the earlier ones left it.
pub open spec fn chain(content: Seq<char>, pairs: Seq<(Seq<char>, Seq<char>)>) -> Seq<char>
    decreases pairs.len(),
{
    if pairs.len() == 0 {
        content
    } else {
        let cur = chain(content, pairs.drop_last());
        let (old, new) = pairs.last();
        if count_matches(cur, old) == 1 {
            replaced_first(cur, old, new)
        } else {
            cur
        }
    }
}

/// The replacements whose old text does not occur exactly once in the
/// text as the earlier ones left it: each as its index and the number of
/// occurrences (0 when it does not occur).
pub open spec fn chain_problems(content: Seq<char>, pairs: Seq<(Seq<char>, Seq<char>)>) -> Seq<(int, nat)>
    decreases pairs.len(),
{
    if pairs.len() == 0 {
        Seq::empty()
    } else {
        let prev = chain_problems(content, pairs.drop_last());
        let n = count_matches(chain(content, pairs.drop_last()), pairs.last().0);
        if n == 1 {
            prev
        } else {
            prev.push((pairs.len() - 1, n))
        }
    }
}

/// The text after the replacements made one after another, each of the
/// first occurrence of its old text.
pub open spec fn sequential(content: Seq<char>, pairs: Seq<(Seq<char>, Seq<char>)>) -> Seq<char>
    decreases pairs.len(),
{
    if pairs.len() == 0 {
        content
    } else {
        replaced_first(sequential(content, pairs.drop_last()), pairs.last().0, pairs.last().1)
    }
}

/// A replacement whose old text does not occur exactly once.
pub struct ReplacementProblem {
    /// Its index in the request.
    pub index: usize,
    /// How often its old text occurs (0: not at all).
    pub count: usize,
}

pub open spec fn problem_views(ps: Seq<ReplacementProblem>) -> Seq<(int, nat)> {
    Seq::new(ps.len(), |i: int| (ps[i].index as int, ps[i].count as nat))
}

pub open spec fn pair_views(pairs: Seq<(String, String)>) -> Seq<(Seq<char>, Seq<char>)> {
    Seq::new(pairs.len(), |i: int| (pairs[i].0@, pairs[i].1@))
}

/// Validates every replacement against the text as the earlier ones leave
/// it, and makes them all when each old text occurs exactly once; else
/// names every replacement that does not, and changes nothing.
pub fn apply_replacements(content: &str, pairs: &[(String, String)]) -> (r: Result<String, Vec<ReplacementProblem>>)
    ensures
        match r {
            Ok(c) => chain_problems(content@, pair_views(pairs@)).len() == 0 && c@ == chain(
                content@,
                pair_views(pairs@),
            ),
            Err(ps) => chain_problems(content@, pair_views(pairs@)).len() > 0 && problem_views(ps@)
                == chain_problems(content@, pair_views(pairs@)),
        },
{
    let ghost ps = pair_views(pairs@);
    let mut current = content.to_string();
    let mut problems: Vec<ReplacementProblem> = Vec::new();
    let mut i: usize = 0;
    while i < pairs.len()
        invariant
            i <= pairs@.len(),
            ps == pair_views(pairs@),
            current@ == chain(content@, ps.take(i as int)),
            problem_views(problems@) == chain_problems(content@, ps.take(i as int)),
        decreases pairs@.len() - i,
    {
        let ghost before = problems@;
        assert(ps.take(i + 1).drop_last() =~= ps.take(i as int));
        assert(ps.take(i + 1).last() == ps[i as int]);
        let old = pairs[i].0.as_str();
        let new = pairs[i].1.as_str();
        let n = count_occurrences(current.as_str(), old);
        if n == 1 {
            current = replace_first(current.as_str(), old, new);
        } else {
            problems.push(ReplacementProblem { index: i, count: n });
            assert(problem_views(problems@) =~= problem_views(before).push((i as int, n as nat)));
        }
        i += 1;
    }
    assert(ps.take(pairs@.len() as int) =~= ps);
    if problems.len() == 0 {
        Ok(current)
    } else {
        Err(problems)
    }
}

// ---------------------------------------------------------------------------
// Checks and replies
// ---------------------------------------------------------------------------

/// Why a request for several replacements is refused before its pairs
/// are read.
pub enum MultiRequestRefusal {
    /// `path` or `replacements` is absent (or of the wrong kind).
    MissingParameter { field: String },
    /// A blank path or an empty list of replacements.
    Refused(GuidedMessage),
}

/// The checks on the path and the number of replacements, in order: the
/// trimmed path, or the refusal (`Err` holds the missing field's name, or
/// `"!path"`/`"!replacements"` for a blank path or an empty list).
pub open spec fn multi_request_outcome(path: Option<Seq<char>>, count: Option<usize>) -> Result<Seq<char>, Seq<char>> {
    match path {
        None => Err("path"@),
        Some(p) => if trim(p).len() == 0 {
            Err("!path"@)
        } else {
            match count {
                None => Err("replacements"@),
                Some(n) => if n == 0 { Err("!replacements"@) } else { Ok(trim(p)) },
            }
        },
    }
}

/// Checks the path and the number of replacements (`None` when the list
/// is absent or not a list).
pub fn check_multi_request(path: Option<&str>, count: Option<usize>) -> (r: Result<String, MultiRequestRefusal>)
    ensures
        match (r, multi_request_outcome(crate::write::opt_view(path), count)) {
            (Ok(p), Ok(q)) => p@ == q,
            (Err(MultiRequestRefusal::MissingParameter { field }), Err(code)) => field@ == code && (code == "path"@
                || code == "replacements"@),
            (Err(MultiRequestRefusal::Refused(g)), Err(code)) => if code == "!path"@ {
                g.message@ == "Parameter 'path' cannot be empty"@ && string_views(g.guidance@) == seq![
                    "Provide a valid file path: editFileMulti({path, replacements})"@,
                    "Use listDirectory('.') to find files"@,
                ]
            } else {
                code == "!replacements"@ && g.message@ == "Parameter 'replacements' cannot be empty"@ && string_views(
                    g.guidance@,
                ) == seq![
                    "Provide at least one replacement: [{oldString, newString}]"@,
                    "Use editFile for single replacements"@,
                ]
            },
            _ => false,
        },
{
    let p = match path {
        None => {
            return Err(MultiRequestRefusal::MissingParameter { field: "path".to_string() });
        },
        Some(p) => p,
    };
    let t = trim_chars(chars_of(p).as_slice());
    proof {
        reveal_strlit("!path");
        reveal_strlit("!replacements");
    }
    if t.len() == 0 {
        let mut g: Vec<String> = Vec::new();
        g.push("Provide a valid file path: editFileMulti({path, replacements})".to_string());
        g.push("Use listDirectory('.') to find files".to_string());
        assert(string_views(g@) =~= seq![
            "Provide a valid file path: editFileMulti({path, replacements})"@,
            "Use listDirectory('.') to find files"@,
        ]);
        proof {
            reveal_strlit("!path");
            reveal_strlit("!replacements");
        }
        return Err(MultiRequestRefusal::Refused(
            GuidedMessage { message: "Parameter 'path' cannot be empty".to_string(), guidance: g },
        ));
    }
    match count {
        None => Err(MultiRequestRefusal::MissingParameter { field: "replacements".to_string() }),
        Some(n) => {
            if n == 0 {
                let mut g: Vec<String> = Vec::new();
                g.push("Provide at least one replacement: [{oldString, newString}]".to_string());
                g.push("Use editFile for single replacements".to_string());
                assert(string_views(g@) =~= seq![
                    "Provide at least one replacement: [{oldString, newString}]"@,
                    "Use editFile for single replacements"@,
                ]);
                assert("!replacements"@ != "!path"@) by {
                    assert("!replacements"@.len() != "!path"@.len());
                }
                Err(MultiRequestRefusal::Refused(
                    GuidedMessage { message: "Parameter 'replacements' cannot be empty".to_string(), guidance: g },
                ))
            } else {
                Ok(string_from_chars(t.as_slice()))
            }
        },
    }
}

/// The refusal of the pair at `index` (each of its strings `None` when
/// absent or not a string), if any: a missing or empty old text, a
/// missing new text, or identical texts.
pub open spec fn pair_refusal(index: nat, old: Option<Seq<char>>, new: Option<Seq<char>>) -> Option<(Seq<char>, Seq<Seq<char>>)> {
    match old {
        None => Some((
            "Missing 'oldString' at index "@ + dec(index),
            seq!["Each replacement must have 'oldString' and 'newString' fields"@],
        )),
        Some(o) => if o.len() == 0 {
            Some((
                "oldString at index "@ + dec(index) + " cannot be empty"@,
                seq![
                    "⚠️ CRITICAL: Call readFile FIRST to get exact content"@,
                    "Extract text exactly as shown in readFile response"@,
                ],
            ))
        } else {
            match new {
                None => Some((
                    "Missing 'newString' at index "@ + dec(index),
                    seq!["Each replacement must have 'oldString' and 'newString' fields"@],
                )),
                Some(n) => if o == n {
                    Some((
                        "Replacement at index "@ + dec(index) + ": oldString and newString are identical"@,
                        seq![
                            "No changes would be made with this replacement"@,
                            "Remove this replacement from the array or modify newString"@,
                        ],
                    ))
                } else {
                    None
                },
            }
        },
    }
}

pub open spec fn guided_view(g: Option<GuidedMessage>) -> Option<(Seq<char>, Seq<Seq<char>>)> {
    match g {
        Some(m) => Some((m.message@, string_views(m.guidance@))),
        None => None,
    }
}

fn numbered(before: &str, index: usize, after: &str) -> (r: String)
    ensures
        r@ == before@ + dec(index as nat) + after@,
{
    let mut m: Vec<char> = Vec::new();
    push_str(&mut m, before);
    push_dec(&mut m, index as u64);
    push_str(&mut m, after);
    string_from_chars(m.as_slice())
}

/// Checks the pair at `index` of a request (see `pair_refusal`).
pub fn check_replacement_pair(index: usize, old: Option<&str>, new: Option<&str>) -> (r: Option<GuidedMessage>)
    ensures
        guided_view(r) == pair_refusal(index as nat, crate::write::opt_view(old), crate::write::opt_view(new)),
{
    let o = match old {
        None => {
            let mut g: Vec<String> = Vec::new();
            g.push("Each replacement must have 'oldString' and 'newString' fields".to_string());
            let r = GuidedMessage { message: numbered("Missing 'oldString' at index ", index, ""), guidance: g };
            assert(string_views(r.guidance@) =~= seq!["Each replacement must have 'oldString' and 'newString' fields"@]);
            proof {
                reveal_strlit("");
            }
            assert(r.message@ =~= "Missing 'oldString' at index "@ + dec(index as nat));
            return Some(r);
        },
        Some(o) => o,
    };
    if o.is_empty() {
        let mut g: Vec<String> = Vec::new();
        g.push("⚠️ CRITICAL: Call readFile FIRST to get exact content".to_string());
        g.push("Extract text exactly as shown in readFile response".to_string());
        let r = GuidedMessage { message: numbered("oldString at index ", index, " cannot be empty"), guidance: g };
        assert(string_views(r.guidance@) =~= seq![
            "⚠️ CRITICAL: Call readFile FIRST to get exact content"@,
            "Extract text exactly as shown in readFile response"@,
        ]);
        return Some(r);
    }
    let n = match new {
        None => {
            let mut g: Vec<String> = Vec::new();
            g.push("Each replacement must have 'oldString' and 'newString' fields".to_string());
            let r = GuidedMessage { message: numbered("Missing 'newString' at index ", index, ""), guidance: g };
            assert(string_views(r.guidance@) =~= seq!["Each replacement must have 'oldString' and 'newString' fields"@]);
            proof {
                reveal_strlit("");
            }
            assert(r.message@ =~= "Missing 'newString' at index "@ + dec(index as nat));
            return Some(r);
        },
        Some(n) => n,
    };
    if crate::text::str_eq(o, n) {
        let mut g: Vec<String> = Vec::new();
        g.push("No changes would be made with this replacement".to_string());
        g.push("Remove this replacement from the array or modify newString".to_string());
        let r = GuidedMessage {
            message: numbered("Replacement at index ", index, ": oldString and newString are identical"),
            guidance: g,
        };
        assert(string_views(r.guidance@) =~= seq![
            "No changes would be made with this replacement"@,
            "Remove this replacement from the array or modify newString"@,
        ]);
        return Some(r);
    }
    None
}

/// The refusal of a request with more than 50 replacements, if it has.
pub fn check_replacement_count(count: usize) -> (r: Option<GuidedMessage>)
    ensures
        r is Some <==> count > MAX_REPLACEMENTS,
        r matches Some(g) ==> g.message@ == "Too many replacements: "@ + dec(count as nat) + " (maximum 50)"@
            && string_views(g.guidance@) == seq![
            "Split into multiple editFileMulti calls if needed"@,
            "Or use multiple editFile calls for independent changes"@,
        ],
{
    if count <= MAX_REPLACEMENTS {
        return None;
    }
    let mut g: Vec<String> = Vec::new();
    g.push("Split into multiple editFileMulti calls if needed".to_string());
    g.push("Or use multiple editFile calls for independent changes".to_string());
    let r = GuidedMessage { message: numbered("Too many replacements: ", count, " (maximum 50)"), guidance: g };
    assert(string_views(r.guidance@) =~= seq![
        "Split into multiple editFileMulti calls if needed"@,
        "Or use multiple editFile calls for independent changes"@,
    ]);
    Some(r)
}

/// The line describing one failed replacement: not unique with its count,
/// or not found (with the most similar line and its similarity in percent
/// when one was found).
pub open spec fn problem_line(index: nat, count: nat, similar: Option<(nat, nat)>) -> Seq<char> {
    "Replacement "@ + dec(index) + if count > 1 {
        ": Pattern found "@ + dec(count) + " times (not unique)"@
    } else {
        match similar {
            Some((line, percent)) => ": Pattern NOT FOUND ("@ + dec(percent) + "% similar at line "@ + dec(line)
                + seq![')'],
            None => ": Pattern NOT FOUND in file"@,
        }
    }
}

pub fn format_problem_line(p: &ReplacementProblem, similar: Option<(usize, u32)>) -> (r: String)
    ensures
        r@ == problem_line(
            p.index as nat,
            p.count as nat,
            match similar {
                Some((l, q)) => Some((l as nat, q as nat)),
                None => None,
            },
        ),
{
    let mut m: Vec<char> = Vec::new();
    push_str(&mut m, "Replacement ");
    push_dec(&mut m, p.index as u64);
    if p.count > 1 {
        push_str(&mut m, ": Pattern found ");
        push_dec(&mut m, p.count as u64);
        push_str(&mut m, " times (not unique)");
    } else {
        match similar {
            Some((line, percent)) => {
                push_str(&mut m, ": Pattern NOT FOUND (");
                push_dec(&mut m, percent as u64);
                push_str(&mut m, "% similar at line ");
                push_dec(&mut m, line as u64);
                m.push(')');
            },
            None => {
                push_str(&mut m, ": Pattern NOT FOUND in file");
            },
        }
    }
    let ghost sim = match similar {
        Some((l, q)) => Some((l as nat, q as nat)),
        None => None,
    };
    assert(m@ =~= problem_line(p.index as nat, p.count as nat, sim));
    string_from_chars(m.as_slice())
}

/// The refusal of a request some of whose patterns failed: the lines
/// describing them, joined, inside the fixed guidance.
pub open spec fn validation_refusal(path: Seq<char>, problem_text: Seq<char>) -> (Seq<char>, Seq<Seq<char>>) {
    (
        "Some patterns failed validation - NO changes applied"@,
        seq![
            "❌ VALIDATION ERRORS:"@,
            problem_text,
            ""@,
            "⚠️ ALL patterns must be valid for atomic operation"@,
            "💡 Use readFile('"@ + path + "') to see current content"@,
            "💡 Fix all patterns and try again"@,
        ],
    )
}

pub fn validation_refusal_message(path: &str, lines: &[String]) -> (r: GuidedMessage)
    ensures
        (r.message@, string_views(r.guidance@)) == validation_refusal(
            path@,
            join(string_views(lines@), seq!['\n']),
        ),
{
    let parts = crate::edit::lines_from_strings(lines);
    let nl = ['\n'];
    assert(nl@ =~= seq!['\n']);
    let joined = join_chars(&parts, &nl);
    let mut g: Vec<String> = Vec::new();
    g.push("❌ VALIDATION ERRORS:".to_string());
    g.push(string_from_chars(joined.as_slice()));
    g.push("".to_string());
    g.push("⚠️ ALL patterns must be valid for atomic operation".to_string());
    let mut c: Vec<char> = Vec::new();
    push_str(&mut c, "💡 Use readFile('");
    push_str(&mut c, path);
    push_str(&mut c, "') to see current content");
    g.push(string_from_chars(c.as_slice()));
    g.push("💡 Fix all patterns and try again".to_string());
    let r = GuidedMessage { message: "Some patterns failed validation - NO changes applied".to_string(), guidance: g };
    assert(string_views(r.guidance@) =~= validation_refusal(path@, join(string_views(lines@), seq!['\n'])).1);
    r
}

// ---------------------------------------------------------------------------
// The reply to applied replacements
// ---------------------------------------------------------------------------

/// A text as the summary shows it: when longer than 50 bytes, its first 47
/// bytes and `...`.
pub open spec fn text_preview(s: Seq<char>) -> Seq<char> {
    if byte_len(s) > 50 {
        s.take(char_index_of(s, 47)) + "..."@
    } else {
        s
    }
}

/// The summary line of the replacement at `index`.
pub open spec fn summary_item(index: nat, old: Seq<char>, new: Seq<char>) -> Seq<char> {
    dec(index + 1) + ". \""@ + text_preview(old) + "\" → \""@ + text_preview(new) + seq!['"']
}

/// A size change with its sign (`+` for growth or none).
pub open spec fn size_change_text(before: nat, after: nat) -> Seq<char> {
    if after >= before {
        seq!['+'] + dec((after - before) as nat)
    } else {
        seq!['-'] + dec((before - after) as nat)
    }
}

/// Every text whose preview is cut can be cut at byte 47.
pub open spec fn previews_cut_cleanly(pairs: Seq<(Seq<char>, Seq<char>)>) -> bool {
    forall|i: int|
        0 <= i < pairs.len() ==> (byte_len(#[trigger] pairs[i].0) > 50 ==> is_char_boundary(pairs[i].0, 47)) && (
        byte_len(pairs[i].1) > 50 ==> is_char_boundary(pairs[i].1, 47))
}

/// The reply to applied replacements: how many, the file, its lines and
/// bytes before and after with the change in size, one line per
/// replacement, and what to do next.
pub open spec fn applied_summary(
    path: Seq<char>,
    pairs: Seq<(Seq<char>, Seq<char>)>,
    original: Seq<char>,
    modified: Seq<char>,
) -> Seq<char> {
    "**✅ Applied "@ + dec(pairs.len()) + " Replacements Successfully**\n\n**File:** `"@ + path + "`\n**Original:** "@
        + dec(lines_of(original).len()) + " lines, "@ + dec(byte_len(original)) + " bytes\n**Modified:** "@ + dec(
        lines_of(modified).len(),
    ) + " lines, "@ + dec(byte_len(modified)) + " bytes ("@ + size_change_text(byte_len(original), byte_len(modified))
        + ")\n\n**Changes Summary:**\n"@ + join(
        Seq::new(pairs.len(), |i: int| summary_item(i as nat, pairs[i].0, pairs[i].1)),
        seq!['\n'],
    ) + "\n\n**Next Steps:**\n- 📖 Use `readFile(\""@ + path
        + "\")` to verify changes\n- 🔄 Use `editFile` to make further adjustments if needed"@
}

fn push_preview(out: &mut Vec<char>, s: &str)
    requires
        byte_len(s@) > 50 ==> is_char_boundary(s@, 47),
    ensures
        final(out)@ == old(out)@ + text_preview(s@),
{
    let cs = chars_of(s);
    if byte_len_exec(cs.as_slice()) > 50 {
        let k = char_index_at(cs.as_slice(), 47);
        let head = slice_chars(cs.as_slice(), 0, k);
        assert(head@ =~= s@.take(k as int));
        push_chars(out, head.as_slice());
        push_str(out, "...");
    } else {
        push_chars(out, cs.as_slice());
    }
}

pub fn applied_summary_text(path: &str, pairs: &[(String, String)], original: &str, modified: &str) -> (r: String)
    requires
        previews_cut_cleanly(pair_views(pairs@)),
        byte_len(original@) <= u64::MAX,
        byte_len(modified@) <= u64::MAX,
    ensures
        r@ == applied_summary(path@, pair_views(pairs@), original@, modified@),
{
    let ghost ps = pair_views(pairs@);
    let oc = chars_of(original);
    let mc = chars_of(modified);
    let ob = byte_len_exec(oc.as_slice()) as u64;
    let mb = byte_len_exec(mc.as_slice()) as u64;
    let ol = split_lines(oc.as_slice()).len();
    let ml = split_lines(mc.as_slice()).len();
    let mut m: Vec<char> = Vec::new();
    push_str(&mut m, "**✅ Applied ");
    push_dec(&mut m, pairs.len() as u64);
    push_str(&mut m, " Replacements Successfully**\n\n**File:** `");
    push_str(&mut m, path);
    push_str(&mut m, "`\n**Original:** ");
    push_dec(&mut m, ol as u64);
    push_str(&mut m, " lines, ");
    push_dec(&mut m, ob);
    push_str(&mut m, " bytes\n**Modified:** ");
    push_dec(&mut m, ml as u64);
    push_str(&mut m, " lines, ");
    push_dec(&mut m, mb);
    push_str(&mut m, " bytes (");
    if mb >= ob {
        m.push('+');
        push_dec(&mut m, mb - ob);
    } else {
        m.push('-');
        push_dec(&mut m, ob - mb);
    }
    push_str(&mut m, ")\n\n**Changes Summary:**\n");
    let ghost items = Seq::new(ps.len(), |i: int| summary_item(i as nat, ps[i].0, ps[i].1));
    let mut parts: Vec<Vec<char>> = Vec::new();
    let mut i: usize = 0;
    while i < pairs.len()
        invariant
            i <= pairs@.len(),
            ps == pair_views(pairs@),
            previews_cut_cleanly(ps),
            items == Seq::new(ps.len(), |i: int| summary_item(i as nat, ps[i].0, ps[i].1)),
            seqs_of(parts@) == items.take(i as int),
        decreases pairs@.len() - i,
    {
        let mut item: Vec<char> = Vec::new();
        push_dec(&mut item, (i + 1) as u64);
        push_str(&mut item, ". \"");
        assert(ps[i as int].0 == pairs@[i as int].0@);
        push_preview(&mut item, pairs[i].0.as_str());
        push_str(&mut item, "\" → \"");
        push_preview(&mut item, pairs[i].1.as_str());
        item.push('"');
        assert(item@ =~= items[i as int]);
        let ghost before = seqs_of(parts@);
        parts.push(item);
        assert(seqs_of(parts@) =~= before.push(items[i as int]));
        assert(items.take(i + 1) =~= items.take(i as int).push(items[i as int]));
        i += 1;
    }
    assert(items.take(pairs@.len() as int) =~= items);
    let nl = ['\n'];
    assert(nl@ =~= seq!['\n']);
    let joined = join_chars(&parts, &nl);
    push_chars(&mut m, joined.as_slice());
    push_str(&mut m, "\n\n**Next Steps:**\n- 📖 Use `readFile(\"");
    push_str(&mut m, path);
    push_str(&mut m, "\")` to verify changes\n- 🔄 Use `editFile` to make further adjustments if needed");
    assert(m@ =~= applied_summary(path@, ps, original@, modified@));
    string_from_chars(m.as_slice())
}

} // verus!
