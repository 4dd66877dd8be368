//! Turning the fields of one edit of an `editFiles` request into a
//! `LineEdit`, or naming the rule the fields break.
use vstd::prelude::*;
use crate::text::{chars_of, dec, join, join_chars, push_chars, push_dec, push_str, seqs_of, str_eq, string_from_chars, trim, trim_chars};
use crate::edit::{EditAction, LineEdit, well_formed, string_views};
use crate::edit_args::FieldValue;

verus! {

/// The fields of one edit object that the parser reads: `path` and `op`
/// when they are strings, `startLine` and `endLine` when they are
/// non-negative integers, whether an `endLine` key is present at all,
/// `content`, and the anchors when they are strings.
pub struct EditFields {
    pub path: Option<String>,
    pub op: Option<String>,
    pub start_line: Option<u64>,
    pub end_line_present: bool,
    pub end_line: Option<u64>,
    pub content: Option<FieldValue>,
    pub start_anchor: Option<String>,
    pub end_anchor: Option<String>,
}

/// Why the fields of an edit do not make a `LineEdit`.
pub enum ParseEditError {
    MissingStart,
    InvalidOp { op: String },
    ZeroStart { action: EditAction },
    EndBeforeStart { end_line: u64, start_line: usize },
    EndOnSingleLine { action: EditAction },
    EndWithInsert,
    DeleteWithContent,
    ContentNotString,
    ContentMissing,
    MissingAnchor,
    MissingEndAnchor,
}

/// A refused edit: the rule it breaks and the message that says so.
pub struct EditInputError {
    pub kind: ParseEditError,
    pub message: String,
}

/// Why an edit was refused, as plain values.
pub enum EditErrorView {
    MissingStart,
    InvalidOp(Seq<char>),
    ZeroStart(EditAction),
    EndBeforeStart(u64, usize),
    EndOnSingleLine(EditAction),
    EndWithInsert,
    DeleteWithContent,
    ContentNotString,
    ContentMissing,
    MissingAnchor,
    MissingEndAnchor,
}

pub open spec fn error_view(e: ParseEditError) -> EditErrorView {
    match e {
        ParseEditError::MissingStart => EditErrorView::MissingStart,
        ParseEditError::InvalidOp { op } => EditErrorView::InvalidOp(op@),
        ParseEditError::ZeroStart { action } => EditErrorView::ZeroStart(action),
        ParseEditError::EndBeforeStart { end_line, start_line } => EditErrorView::EndBeforeStart(end_line, start_line),
        ParseEditError::EndOnSingleLine { action } => EditErrorView::EndOnSingleLine(action),
        ParseEditError::EndWithInsert => EditErrorView::EndWithInsert,
        ParseEditError::DeleteWithContent => EditErrorView::DeleteWithContent,
        ParseEditError::ContentNotString => EditErrorView::ContentNotString,
        ParseEditError::ContentMissing => EditErrorView::ContentMissing,
        ParseEditError::MissingAnchor => EditErrorView::MissingAnchor,
        ParseEditError::MissingEndAnchor => EditErrorView::MissingEndAnchor,
    }
}

/// A parsed edit as plain values: start, end, new value, anchors, action.
pub struct EditView {
    pub start_line: usize,
    pub end_line: usize,
    pub new_value: Seq<char>,
    pub start_anchor: Option<Seq<char>>,
    pub end_anchor: Option<Seq<char>>,
    pub action: EditAction,
}

pub open spec fn opt_view(o: Option<String>) -> Option<Seq<char>> {
    match o {
        Some(s) => Some(s@),
        None => None,
    }
}

pub open spec fn edit_view(e: LineEdit) -> EditView {
    EditView {
        start_line: e.start_line,
        end_line: e.end_line,
        new_value: e.new_value@,
        start_anchor: opt_view(e.start_anchor),
        end_anchor: opt_view(e.end_anchor),
        action: e.action,
    }
}

/// The op name of an action.
pub open spec fn action_name(a: EditAction) -> Seq<char> {
    match a {
        EditAction::Replace => "replace"@,
        EditAction::Delete => "delete"@,
        EditAction::InsertAfter => "insert_after"@,
    }
}

pub open spec fn is_replace_or_delete(a: EditAction) -> bool {
    a == EditAction::Replace || a == EditAction::Delete
}

/// The action the fields ask for: the op when one is given; otherwise an
/// insert at the top for start line 0, a replace when there is non-empty
/// content, and a delete when there is none.
pub open spec fn action_of(f: EditFields, start: usize) -> Result<EditAction, EditErrorView> {
    match f.op {
        Some(o) => if o@ == "replace"@ {
            Ok(EditAction::Replace)
        } else if o@ == "insert_after"@ {
            Ok(EditAction::InsertAfter)
        } else if o@ == "delete"@ {
            Ok(EditAction::Delete)
        } else {
            Err(EditErrorView::InvalidOp(o@))
        },
        None => if start == 0 {
            Ok(EditAction::InsertAfter)
        } else if f.content is Some && !(f.content matches Some(FieldValue::Str(s)) && s@.len() == 0) {
            Ok(EditAction::Replace)
        } else {
            Ok(EditAction::Delete)
        },
    }
}

/// The new value the fields give for an action.
pub open spec fn new_value_of(action: EditAction, content: Option<FieldValue>) -> Result<Seq<char>, EditErrorView> {
    match content {
        None => if action == EditAction::Delete {
            Ok(Seq::empty())
        } else {
            Err(EditErrorView::ContentMissing)
        },
        Some(FieldValue::Str(c)) => if action == EditAction::Delete {
            if c@.len() == 0 {
                Ok(Seq::empty())
            } else {
                Err(EditErrorView::DeleteWithContent)
            }
        } else {
            Ok(c@)
        },
        Some(FieldValue::Other) => Err(EditErrorView::ContentNotString),
    }
}

/// What `parse_line_edit` makes of the fields: the edit, or the first rule
/// they break, checked in this order: a start line is given; the op is
/// known; only inserts start at line 0; the end line is not before the
/// start line; single-line replaces and deletes give no end; inserts give
/// no end; the content fits the action; the anchors that the edit needs
/// are given.
pub open spec fn parse_outcome(f: EditFields) -> Result<EditView, EditErrorView> {
    match f.start_line {
        None => Err(EditErrorView::MissingStart),
        Some(sl) => {
            let start = sl as usize;
            match action_of(f, start) {
                Err(e) => Err(e),
                Ok(action) => if start == 0 && action != EditAction::InsertAfter {
                    Err(EditErrorView::ZeroStart(action))
                } else {
                    let end_r: Result<usize, EditErrorView> = match f.end_line {
                        Some(l) => if l >= start as u64 {
                            Ok(l as usize)
                        } else {
                            Err(EditErrorView::EndBeforeStart(l, start))
                        },
                        None => Ok(start),
                    };
                    match end_r {
                        Err(e) => Err(e),
                        Ok(end) => if is_replace_or_delete(action) && end == start && f.end_line_present {
                            Err(EditErrorView::EndOnSingleLine(action))
                        } else if action == EditAction::InsertAfter && f.end_line_present {
                            Err(EditErrorView::EndWithInsert)
                        } else {
                            match new_value_of(action, f.content) {
                                Err(e) => Err(e),
                                Ok(nv) => {
                                    let requires_anchor = !(action == EditAction::InsertAfter && start == 0);
                                    let sa = if requires_anchor { opt_view(f.start_anchor) } else { None };
                                    let ea = if requires_anchor { opt_view(f.end_anchor) } else { None };
                                    if requires_anchor && sa is None {
                                        Err(EditErrorView::MissingAnchor)
                                    } else if is_replace_or_delete(action) && end > start && ea is None {
                                        Err(EditErrorView::MissingEndAnchor)
                                    } else {
                                        Ok(EditView {
                                            start_line: start,
                                            end_line: end,
                                            new_value: nv,
                                            start_anchor: sa,
                                            end_anchor: ea,
                                            action,
                                        })
                                    }
                                },
                            }
                        },
                    }
                },
            }
        },
    }
}

/// The parts of an edit's label: its path (trimmed, when not blank), op,
/// start line and end line, each when present.
pub open spec fn path_part(f: EditFields) -> Seq<Seq<char>> {
    match f.path {
        Some(p) => if trim(p@).len() > 0 { seq!["path='"@ + trim(p@) + seq!['\'']] } else { Seq::empty() },
        None => Seq::empty(),
    }
}

pub open spec fn op_part(f: EditFields) -> Seq<Seq<char>> {
    match f.op {
        Some(o) => seq!["op='"@ + o@ + seq!['\'']],
        None => Seq::empty(),
    }
}

pub open spec fn start_part(f: EditFields) -> Seq<Seq<char>> {
    match f.start_line {
        Some(n) => seq!["startLine="@ + dec(n as nat)],
        None => Seq::empty(),
    }
}

pub open spec fn end_part(f: EditFields) -> Seq<Seq<char>> {
    match f.end_line {
        Some(n) => seq!["endLine="@ + dec(n as nat)],
        None => Seq::empty(),
    }
}

pub open spec fn label_parts(f: EditFields) -> Seq<Seq<char>> {
    path_part(f) + op_part(f) + start_part(f) + end_part(f)
}

/// `Edit at index {idx}`, followed by the label parts in brackets when
/// there are any.
pub open spec fn edit_label(f: EditFields, idx: usize) -> Seq<char> {
    let parts = label_parts(f);
    if parts.len() == 0 {
        "Edit at index "@ + dec(idx as nat)
    } else {
        "Edit at index "@ + dec(idx as nat) + " ["@ + join(parts, ", "@) + seq![']']
    }
}

fn push_part(parts: &mut Vec<Vec<char>>, s: Vec<char>)
    ensures
        seqs_of(final(parts)@) == seqs_of(old(parts)@).push(s@),
{
    parts.push(s);
    assert(seqs_of(parts@) =~= seqs_of(old(parts)@).push(s@));
}

/// The label naming an edit in error messages.
pub fn format_edit_label(f: &EditFields, idx: usize) -> (r: String)
    ensures
        r@ == edit_label(*f, idx),
{
    let mut parts: Vec<Vec<char>> = Vec::new();
    match &f.path {
        Some(p) => {
            let t = trim_chars(chars_of(p.as_str()).as_slice());
            if t.len() > 0 {
                let mut s: Vec<char> = Vec::new();
                push_str(&mut s, "path='");
                push_chars(&mut s, t.as_slice());
                s.push('\'');
                assert(s@ =~= "path='"@ + trim(p@) + seq!['\'']);
                push_part(&mut parts, s);
            }
        },
        None => {},
    }
    assert(seqs_of(parts@) =~= path_part(*f));
    match &f.op {
        Some(o) => {
            let mut s: Vec<char> = Vec::new();
            push_str(&mut s, "op='");
            push_str(&mut s, o.as_str());
            s.push('\'');
            assert(s@ =~= "op='"@ + o@ + seq!['\'']);
            push_part(&mut parts, s);
        },
        None => {},
    }
    assert(seqs_of(parts@) =~= path_part(*f) + op_part(*f));
    match f.start_line {
        Some(n) => {
            let mut s: Vec<char> = Vec::new();
            push_str(&mut s, "startLine=");
            push_dec(&mut s, n);
            push_part(&mut parts, s);
        },
        None => {},
    }
    assert(seqs_of(parts@) =~= path_part(*f) + op_part(*f) + start_part(*f));
    match f.end_line {
        Some(n) => {
            let mut s: Vec<char> = Vec::new();
            push_str(&mut s, "endLine=");
            push_dec(&mut s, n);
            push_part(&mut parts, s);
        },
        None => {},
    }
    assert(seqs_of(parts@) =~= label_parts(*f));
    let mut out: Vec<char> = Vec::new();
    push_str(&mut out, "Edit at index ");
    push_dec(&mut out, idx as u64);
    if parts.len() > 0 {
        push_str(&mut out, " [");
        let mut sep: Vec<char> = Vec::new();
        push_str(&mut sep, ", ");
        let j = join_chars(&parts, sep.as_slice());
        push_chars(&mut out, j.as_slice());
        out.push(']');
    }
    assert(out@ =~= edit_label(*f, idx));
    string_from_chars(out.as_slice())
}

/// The message of a refused edit, after its label.
pub open spec fn error_message(label: Seq<char>, e: EditErrorView) -> Seq<char> {
    match e {
        EditErrorView::MissingStart => label + ": 'start' (or startLine) is required"@,
        EditErrorView::InvalidOp(o) => label + ": invalid op '"@ + o + seq!['\''],
        EditErrorView::ZeroStart(a) => label + ": 'start' must be a 1-based \"N:anchor\" for '"@ + action_name(a) + "' edits"@,
        EditErrorView::EndBeforeStart(l, st) => label + ": 'end' line ("@ + dec(l as nat) + ") must be ≥ 'start' line ("@ + dec(st as nat) + seq![')'],
        EditErrorView::EndOnSingleLine(a) => label + ": 'end' must be omitted for single-line "@ + action_name(a) + " edits"@,
        EditErrorView::EndWithInsert => label + ": 'end' cannot be used with op 'insert_after'"@,
        EditErrorView::DeleteWithContent => label + ": delete edits must omit 'content' (or set op='replace' if you meant to replace)"@,
        EditErrorView::ContentNotString => label + ": 'content' must be a string when provided"@,
        EditErrorView::ContentMissing => label + ": 'content' is required for replace and insert_after"@,
        EditErrorView::MissingAnchor => label + " targets existing content and requires 'anchor' (use start: \"N:anchor\")"@,
        EditErrorView::MissingEndAnchor => label + " uses a range and requires 'end' for the exact end line"@,
    }
}

fn push_action_name(out: &mut Vec<char>, a: EditAction)
    ensures
        final(out)@ == old(out)@ + action_name(a),
{
    match a {
        EditAction::Replace => push_str(out, "replace"),
        EditAction::Delete => push_str(out, "delete"),
        EditAction::InsertAfter => push_str(out, "insert_after"),
    }
}

fn render_error(label: &str, e: &ParseEditError) -> (r: String)
    ensures
        r@ == error_message(label@, error_view(*e)),
{
    let mut m: Vec<char> = Vec::new();
    push_str(&mut m, label);
    match e {
        ParseEditError::MissingStart => push_str(&mut m, ": 'start' (or startLine) is required"),
        ParseEditError::InvalidOp { op } => {
            push_str(&mut m, ": invalid op '");
            push_str(&mut m, op.as_str());
            m.push('\'');
        },
        ParseEditError::ZeroStart { action } => {
            push_str(&mut m, ": 'start' must be a 1-based \"N:anchor\" for '");
            push_action_name(&mut m, *action);
            push_str(&mut m, "' edits");
        },
        ParseEditError::EndBeforeStart { end_line, start_line } => {
            push_str(&mut m, ": 'end' line (");
            push_dec(&mut m, *end_line);
            push_str(&mut m, ") must be ≥ 'start' line (");
            push_dec(&mut m, *start_line as u64);
            m.push(')');
        },
        ParseEditError::EndOnSingleLine { action } => {
            push_str(&mut m, ": 'end' must be omitted for single-line ");
            push_action_name(&mut m, *action);
            push_str(&mut m, " edits");
        },
        ParseEditError::EndWithInsert => push_str(&mut m, ": 'end' cannot be used with op 'insert_after'"),
        ParseEditError::DeleteWithContent => push_str(&mut m, ": delete edits must omit 'content' (or set op='replace' if you meant to replace)"),
        ParseEditError::ContentNotString => push_str(&mut m, ": 'content' must be a string when provided"),
        ParseEditError::ContentMissing => push_str(&mut m, ": 'content' is required for replace and insert_after"),
        ParseEditError::MissingAnchor => push_str(&mut m, " targets existing content and requires 'anchor' (use start: \"N:anchor\")"),
        ParseEditError::MissingEndAnchor => push_str(&mut m, " uses a range and requires 'end' for the exact end line"),
    }
    assert(m@ =~= error_message(label@, error_view(*e)));
    string_from_chars(m.as_slice())
}

fn refuse(f: &EditFields, idx: usize, kind: ParseEditError) -> (r: EditInputError)
    ensures
        error_view(r.kind) == error_view(kind),
        r.message@ == error_message(edit_label(*f, idx), error_view(kind)),
{
    let label = format_edit_label(f, idx);
    let message = render_error(label.as_str(), &kind);
    EditInputError { kind, message }
}

fn copy_string(s: &String) -> (r: String)
    ensures
        r@ == s@,
{
    string_from_chars(chars_of(s.as_str()).as_slice())
}

fn copy_opt(s: &Option<String>) -> (r: Option<String>)
    ensures
        opt_view(r) == opt_view(*s),
{
    match s {
        Some(x) => Some(copy_string(x)),
        None => None,
    }
}

/// Fields as an edit object gives them: an `endLine` value implies an
/// `endLine` key, and the line numbers fit in a `usize`.
pub open spec fn fields_consistent(f: EditFields) -> bool {
    &&& (f.end_line is Some ==> f.end_line_present)
    &&& (f.start_line matches Some(l) ==> l <= usize::MAX)
    &&& (f.end_line matches Some(l) ==> l <= usize::MAX)
}

/// Parse the fields of one edit into a `LineEdit`, or say which rule they
/// break (see `parse_outcome`).
pub fn parse_line_edit(f: &EditFields, idx: usize) -> (r: Result<LineEdit, EditInputError>)
    ensures
        match r {
            Ok(e) => parse_outcome(*f) == Ok::<EditView, EditErrorView>(edit_view(e)) && (fields_consistent(*f) ==> well_formed(e)),
            Err(x) => parse_outcome(*f) == Err::<EditView, EditErrorView>(error_view(x.kind))
                && x.message@ == error_message(edit_label(*f, idx), error_view(x.kind)),
        },
{
    let start_line: usize = match f.start_line {
        Some(l) => l as usize,
        None => {
            return Err(refuse(f, idx, ParseEditError::MissingStart));
        },
    };
    let has_content = f.content.is_some();
    let content_is_empty_string = match &f.content {
        Some(FieldValue::Str(c)) => chars_of(c.as_str()).len() == 0,
        _ => false,
    };
    let action = match &f.op {
        Some(o) => {
            if str_eq(o.as_str(), "replace") {
                EditAction::Replace
            } else if str_eq(o.as_str(), "insert_after") {
                EditAction::InsertAfter
            } else if str_eq(o.as_str(), "delete") {
                EditAction::Delete
            } else {
                return Err(refuse(f, idx, ParseEditError::InvalidOp { op: copy_string(o) }));
            }
        },
        None => {
            if start_line == 0 {
                EditAction::InsertAfter
            } else if has_content && !content_is_empty_string {
                EditAction::Replace
            } else {
                EditAction::Delete
            }
        },
    };
    assert(action_of(*f, start_line) == Ok::<EditAction, EditErrorView>(action));
    if start_line == 0 && action != EditAction::InsertAfter {
        return Err(refuse(f, idx, ParseEditError::ZeroStart { action }));
    }
    let has_end_line = f.end_line_present;
    let end_line: usize = match f.end_line {
        Some(l) => {
            if l >= start_line as u64 {
                l as usize
            } else {
                return Err(refuse(f, idx, ParseEditError::EndBeforeStart { end_line: l, start_line }));
            }
        },
        None => start_line,
    };
    let is_rd = action == EditAction::Replace || action == EditAction::Delete;
    if is_rd && end_line == start_line && has_end_line {
        return Err(refuse(f, idx, ParseEditError::EndOnSingleLine { action }));
    }
    if action == EditAction::InsertAfter && has_end_line {
        return Err(refuse(f, idx, ParseEditError::EndWithInsert));
    }
    let new_value: String = match &f.content {
        None => {
            if action == EditAction::Delete {
                String::new()
            } else {
                return Err(refuse(f, idx, ParseEditError::ContentMissing));
            }
        },
        Some(FieldValue::Str(c)) => {
            if action == EditAction::Delete {
                if chars_of(c.as_str()).len() == 0 {
                    String::new()
                } else {
                    return Err(refuse(f, idx, ParseEditError::DeleteWithContent));
                }
            } else {
                copy_string(c)
            }
        },
        Some(FieldValue::Other) => {
            return Err(refuse(f, idx, ParseEditError::ContentNotString));
        },
    };
    let requires_anchor = !(action == EditAction::InsertAfter && start_line == 0);
    let start_anchor = if requires_anchor { copy_opt(&f.start_anchor) } else { None };
    let end_anchor = if requires_anchor { copy_opt(&f.end_anchor) } else { None };
    if requires_anchor && start_anchor.is_none() {
        return Err(refuse(f, idx, ParseEditError::MissingAnchor));
    }
    if is_rd && end_line > start_line && end_anchor.is_none() {
        return Err(refuse(f, idx, ParseEditError::MissingEndAnchor));
    }
    let e = LineEdit { start_line, end_line, new_value, start_anchor, end_anchor, action };
    assert(parse_outcome(*f) == Ok::<EditView, EditErrorView>(edit_view(e)));
    Ok(e)
}

/// The guidance shown with a refused edit.
pub open spec fn guidance_of(e: EditErrorView) -> Seq<Seq<char>> {
    match e {
        EditErrorView::MissingStart => seq!["Provide start as \"N:anchor\" (e.g. \"start\": \"42:a31f2c\")"@, "Copy the \"42:a31f2c\" prefix from workspace__readFile output: 42:a31f2c|content"@, "Existing lines are 1-based; use start: \"0\" only to prepend at the file top"@],
        EditErrorView::InvalidOp(_) => seq!["Supported ops: replace, insert_after, delete"@],
        EditErrorView::ZeroStart(_) => seq!["Use start: \"0\" only with op='insert_after' (or content-only prepend)"@, "Use start: \"N:anchor\" for replace and delete edits"@],
        EditErrorView::EndBeforeStart(_, _) => seq!["end must be ≥ start"@],
        EditErrorView::EndOnSingleLine(_) => seq!["For single-line replace: {\"start\": \"10:a31f2c\", \"content\": \"new text\"}"@, "For single-line delete: {\"start\": \"10:a31f2c\"}"@, "Use end only for multi-line ranges"@],
        EditErrorView::EndWithInsert => seq!["insert_after only targets one line (or start \"0\"). Remove 'end'."@],
        EditErrorView::DeleteWithContent => seq!["For deletion, omit 'content' entirely"@, "For replacement, include non-empty 'content' and optionally set op='replace'"@],
        EditErrorView::ContentNotString => seq!["Provide replacement/insertion content as a string"@],
        EditErrorView::ContentMissing => seq!["Provide replacement/insertion content as a string"@],
        EditErrorView::MissingAnchor => seq!["Run workspace__readFile(showLineAnchors=true) or workspace__searchFiles(showLineAnchors=true) first"@, "Copy start as \"N:anchor\" from the line format N:anchor|content (e.g. from '42:a31f2c|let x = 1;', pass \"start\": \"42:a31f2c\")."@, "For ranges, also pass end: \"M:anchor\" for the final line"@, "Only start: \"0\" (prepend) may omit anchors"@],
        EditErrorView::MissingEndAnchor => seq!["Run workspace__readFile(showLineAnchors=true) or workspace__searchFiles(showLineAnchors=true) first"@, "Pass start: \"N:anchor\" and end: \"M:anchor\" copied from workspace__readFile output"@, "Only multi-line replace and delete need 'end'"@],
    }
}

/// The guidance shown with a refused edit.
pub fn edit_error_guidance(kind: &ParseEditError) -> (r: Vec<String>)
    ensures
        string_views(r@) == guidance_of(error_view(*kind)),
{
    let mut g: Vec<String> = Vec::new();
    match kind {
        ParseEditError::MissingStart => {
            g.push("Provide start as \"N:anchor\" (e.g. \"start\": \"42:a31f2c\")".to_string());
            g.push("Copy the \"42:a31f2c\" prefix from workspace__readFile output: 42:a31f2c|content".to_string());
            g.push("Existing lines are 1-based; use start: \"0\" only to prepend at the file top".to_string());
        },
        ParseEditError::InvalidOp { .. } => {
            g.push("Supported ops: replace, insert_after, delete".to_string());
        },
        ParseEditError::ZeroStart { .. } => {
            g.push("Use start: \"0\" only with op='insert_after' (or content-only prepend)".to_string());
            g.push("Use start: \"N:anchor\" for replace and delete edits".to_string());
        },
        ParseEditError::EndBeforeStart { .. } => {
            g.push("end must be ≥ start".to_string());
        },
        ParseEditError::EndOnSingleLine { .. } => {
            g.push("For single-line replace: {\"start\": \"10:a31f2c\", \"content\": \"new text\"}".to_string());
            g.push("For single-line delete: {\"start\": \"10:a31f2c\"}".to_string());
            g.push("Use end only for multi-line ranges".to_string());
        },
        ParseEditError::EndWithInsert => {
            g.push("insert_after only targets one line (or start \"0\"). Remove 'end'.".to_string());
        },
        ParseEditError::DeleteWithContent => {
            g.push("For deletion, omit 'content' entirely".to_string());
            g.push("For replacement, include non-empty 'content' and optionally set op='replace'".to_string());
        },
        ParseEditError::ContentNotString => {
            g.push("Provide replacement/insertion content as a string".to_string());
        },
        ParseEditError::ContentMissing => {
            g.push("Provide replacement/insertion content as a string".to_string());
        },
        ParseEditError::MissingAnchor => {
            g.push("Run workspace__readFile(showLineAnchors=true) or workspace__searchFiles(showLineAnchors=true) first".to_string());
            g.push("Copy start as \"N:anchor\" from the line format N:anchor|content (e.g. from '42:a31f2c|let x = 1;', pass \"start\": \"42:a31f2c\").".to_string());
            g.push("For ranges, also pass end: \"M:anchor\" for the final line".to_string());
            g.push("Only start: \"0\" (prepend) may omit anchors".to_string());
        },
        ParseEditError::MissingEndAnchor => {
            g.push("Run workspace__readFile(showLineAnchors=true) or workspace__searchFiles(showLineAnchors=true) first".to_string());
            g.push("Pass start: \"N:anchor\" and end: \"M:anchor\" copied from workspace__readFile output".to_string());
            g.push("Only multi-line replace and delete need 'end'".to_string());
        },
    }
    assert(string_views(g@) =~= guidance_of(error_view(*kind)));
    g
}

/// The path of an edit, trimmed: every edit names its own file.
pub open spec fn edit_path_outcome(path: Option<String>, idx: usize) -> Result<Seq<char>, Seq<char>> {
    match path {
        Some(p) => if trim(p@).len() > 0 {
            Ok(trim(p@))
        } else {
            Err("Edit at index "@ + dec(idx as nat) + ": 'path' field is required and must be a non-empty string"@)
        },
        None => Err("Edit at index "@ + dec(idx as nat) + ": 'path' field is required and must be a non-empty string"@),
    }
}

/// The trimmed path of edit `idx`, or the message refusing it.
pub fn edit_path(path: &Option<String>, idx: usize) -> (r: Result<String, String>)
    ensures
        match r {
            Ok(p) => edit_path_outcome(*path, idx) == Ok::<Seq<char>, Seq<char>>(p@),
            Err(m) => edit_path_outcome(*path, idx) == Err::<Seq<char>, Seq<char>>(m@),
        },
{
    if let Some(p) = path {
        let t = trim_chars(chars_of(p.as_str()).as_slice());
        if t.len() > 0 {
            return Ok(string_from_chars(t.as_slice()));
        }
    }
    let mut m: Vec<char> = Vec::new();
    push_str(&mut m, "Edit at index ");
    push_dec(&mut m, idx as u64);
    push_str(&mut m, ": 'path' field is required and must be a non-empty string");
    Err(string_from_chars(m.as_slice()))
}

} // verus!
