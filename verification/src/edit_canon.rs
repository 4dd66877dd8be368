//! Bringing one edit object of an `editFiles` request into canonical form:
//! legacy and alias fields are folded into `op`, `startLine`, `endLine`,
//! `startAnchor`, `endAnchor` and `content`, and `start` / `end` line
//! references (`N:anchor`) are expanded.
//!
//! An edit object is given as its fields in key order (the order of a
//! JSON object's map), each value reduced to what the rules read.
use vstd::prelude::*;
use crate::text::str_eq;
use crate::edit_parse::EditFields;
use crate::edit_args::{FieldValue, infer_legacy_edit_op, legacy_op, line_ref_outcome, normalize_edit_op_value, normalized_op, parse_line_ref};

verus! {

/// A JSON value as the canonical form sees it. `Other` stands for any
/// value the rules only carry along (a negative or fractional number, an
/// array, an object), by a handle of the caller's choosing.
pub enum JsonValue {
    Null,
    Bool(bool),
    UInt(u64),
    Str(String),
    Other(usize),
}

/// The mathematical value of a `JsonValue`.
pub enum JsonView {
    Null,
    Bool(bool),
    UInt(u64),
    Str(Seq<char>),
    Other(usize),
}

impl View for JsonValue {
    type V = JsonView;

    open spec fn view(&self) -> JsonView {
        match self {
            JsonValue::Null => JsonView::Null,
            JsonValue::Bool(b) => JsonView::Bool(*b),
            JsonValue::UInt(n) => JsonView::UInt(*n),
            JsonValue::Str(s) => JsonView::Str(s@),
            JsonValue::Other(h) => JsonView::Other(*h),
        }
    }
}

fn copy_value(v: &JsonValue) -> (r: JsonValue)
    ensures
        r@ == v@,
{
    match v {
        JsonValue::Null => JsonValue::Null,
        JsonValue::Bool(b) => JsonValue::Bool(*b),
        JsonValue::UInt(n) => JsonValue::UInt(*n),
        JsonValue::Str(s) => JsonValue::Str(s.clone()),
        JsonValue::Other(h) => JsonValue::Other(*h),
    }
}

/// The fields of an edit object, viewed.
pub open spec fn entries_view(e: Seq<(String, JsonValue)>) -> Seq<(Seq<char>, JsonView)> {
    e.map_values(|p: (String, JsonValue)| (p.0@, p.1@))
}

/// The value under `key`.
pub open spec fn lookup(e: Seq<(Seq<char>, JsonView)>, key: Seq<char>) -> Option<JsonView>
    decreases e.len(),
{
    if e.len() == 0 {
        None
    } else if e.last().0 == key {
        Some(e.last().1)
    } else {
        lookup(e.drop_last(), key)
    }
}

/// The op that the legacy fields imply (see `legacy_op`), over viewed
/// values: `insertAfter: true`, or a `new_value` that is empty (delete) or
/// anything else (replace).
pub open spec fn legacy_op_of(e: Seq<(Seq<char>, JsonView)>) -> Option<Seq<char>> {
    if lookup(e, "insertAfter"@) == Some(JsonView::Bool(true)) {
        Some("insert_after"@)
    } else {
        match lookup(e, "new_value"@) {
            Some(JsonView::Str(s)) => if s.len() == 0 {
                Some("delete"@)
            } else {
                Some("replace"@)
            },
            Some(_) => Some("replace"@),
            None => None,
        }
    }
}

/// An edit object part-way through canonicalisation.
pub struct Draft {
    pub op: Option<JsonView>,
    pub start_line: Option<JsonView>,
    pub end_line: Option<JsonView>,
    pub start_anchor: Option<JsonView>,
    pub end_anchor: Option<JsonView>,
    pub start: Option<JsonView>,
    pub end: Option<JsonView>,
    pub content: Option<JsonView>,
    pub others: Seq<(Seq<char>, JsonView)>,
}

pub open spec fn empty_draft() -> Draft {
    Draft {
        op: None,
        start_line: None,
        end_line: None,
        start_anchor: None,
        end_anchor: None,
        start: None,
        end: None,
        content: None,
        others: Seq::empty(),
    }
}

/// An op value with a string normalised.
pub open spec fn op_value(v: JsonView) -> JsonView {
    match v {
        JsonView::Str(s) => JsonView::Str(normalized_op(s)),
        _ => v,
    }
}

/// One field folded into the draft. `path` and `insertAfter` are dropped,
/// a null value of a known field is ignored, `action` only sets an op not
/// yet set, `line` / `afterLine` are `startLine`, `anchor` is
/// `startAnchor`, `new_value` is `content` unless the legacy fields mean a
/// delete, and any other field is kept as it is.
pub open spec fn canon_step(d: Draft, key: Seq<char>, v: JsonView, inferred: Option<Seq<char>>) -> Draft {
    let null = v is Null;
    if key == "path"@ || key == "insertAfter"@ {
        d
    } else if key == "op"@ {
        if null { d } else { Draft { op: Some(op_value(v)), ..d } }
    } else if key == "action"@ {
        if null || d.op is Some { d } else { Draft { op: Some(op_value(v)), ..d } }
    } else if key == "line"@ || key == "startLine"@ || key == "afterLine"@ {
        if null { d } else { Draft { start_line: Some(v), ..d } }
    } else if key == "endLine"@ {
        if null { d } else { Draft { end_line: Some(v), ..d } }
    } else if key == "anchor"@ || key == "startAnchor"@ {
        if null { d } else { Draft { start_anchor: Some(v), ..d } }
    } else if key == "endAnchor"@ {
        if null { d } else { Draft { end_anchor: Some(v), ..d } }
    } else if key == "start"@ {
        if null { d } else { Draft { start: Some(v), ..d } }
    } else if key == "end"@ {
        if null { d } else { Draft { end: Some(v), ..d } }
    } else if key == "new_value"@ || key == "content"@ {
        if null || (key == "new_value"@ && inferred == Some("delete"@)) { d } else { Draft { content: Some(v), ..d } }
    } else {
        Draft { others: d.others.push((key, v)), ..d }
    }
}

/// Every field folded in, in key order.
pub open spec fn canon_fold(e: Seq<(Seq<char>, JsonView)>, inferred: Option<Seq<char>>) -> Draft
    decreases e.len(),
{
    if e.len() == 0 {
        empty_draft()
    } else {
        let d = canon_fold(e.drop_last(), inferred);
        canon_step(d, e.last().0, e.last().1, inferred)
    }
}

/// The op filled in from the legacy fields when none was given.
pub open spec fn with_inferred_op(d: Draft, inferred: Option<Seq<char>>) -> Draft {
    if d.op is None && inferred is Some {
        Draft { op: Some(JsonView::Str(inferred->0)), ..d }
    } else {
        d
    }
}

/// `start` and `end` expanded into line numbers and anchors; `end` must
/// name a line from 1 with an anchor.
pub open spec fn expanded(d: Draft) -> Result<Draft, Seq<char>> {
    let d1: Result<Draft, Seq<char>> = match d.start {
        None => Ok(d),
        Some(JsonView::Str(s)) => match line_ref_outcome(s, "start"@) {
            Err(m) => Err(m),
            Ok((line, anchor)) => Ok(
                Draft {
                    start: None,
                    start_line: Some(JsonView::UInt(line as u64)),
                    start_anchor: match anchor {
                        Some(a) => Some(JsonView::Str(a)),
                        None => d.start_anchor,
                    },
                    ..d
                },
            ),
        },
        Some(_) => Err("'start' must be a string (e.g. \"42:a31f2c\")"@),
    };
    match d1 {
        Err(m) => Err(m),
        Ok(d1) => match d1.end {
            None => Ok(d1),
            Some(JsonView::Str(s)) => match line_ref_outcome(s, "end"@) {
                Err(m) => Err(m),
                Ok((line, anchor)) => if line == 0 {
                    Err("'end' cannot be \"0\"; omit end for single-line edits or use a 1-based range"@)
                } else {
                    match anchor {
                        None => Err("'end' must use \"N:anchor\" format (e.g. \"72:b47aa1\")"@),
                        Some(a) => Ok(
                            Draft {
                                end: None,
                                end_line: Some(JsonView::UInt(line as u64)),
                                end_anchor: Some(JsonView::Str(a)),
                                ..d1
                            },
                        ),
                    }
                },
            },
            Some(_) => Err("'end' must be a string (e.g. \"72:b47aa1\")"@),
        },
    }
}

/// An edit with non-empty content and no line or anchor of an existing
/// line, that is not an insert, goes at the top (`startLine: 0`).
pub open spec fn with_default_start(d: Draft) -> Draft {
    let is_insert_after = d.op == Some(JsonView::Str("insert_after"@));
    let touches = d.start_anchor is Some || d.end_anchor is Some || d.end_line is Some;
    let non_empty = match d.content {
        Some(JsonView::Str(c)) => c.len() > 0,
        _ => false,
    };
    if d.start_line is None && non_empty && !is_insert_after && !touches {
        Draft { start_line: Some(JsonView::UInt(0)), ..d }
    } else {
        d
    }
}

/// The canonical form of an edit object, or why its line references are
/// refused.
pub open spec fn canonical_edit(e: Seq<(Seq<char>, JsonView)>) -> Result<Draft, Seq<char>> {
    let inferred = legacy_op_of(e);
    match expanded(with_inferred_op(canon_fold(e, inferred), inferred)) {
        Ok(d) => Ok(with_default_start(d)),
        Err(m) => Err(m),
    }
}

pub open spec fn opt_json(o: Option<JsonValue>) -> Option<JsonView> {
    match o {
        Some(v) => Some(v@),
        None => None,
    }
}

/// An edit object in canonical form; `others` keeps the fields the rules
/// do not know, in key order.
pub struct CanonicalEdit {
    pub op: Option<JsonValue>,
    pub start_line: Option<JsonValue>,
    pub end_line: Option<JsonValue>,
    pub start_anchor: Option<JsonValue>,
    pub end_anchor: Option<JsonValue>,
    pub content: Option<JsonValue>,
    pub others: Vec<(String, JsonValue)>,
}

/// The draft that a canonical edit stands for.
pub open spec fn canonical_view(c: CanonicalEdit) -> Draft {
    Draft {
        op: opt_json(c.op),
        start_line: opt_json(c.start_line),
        end_line: opt_json(c.end_line),
        start_anchor: opt_json(c.start_anchor),
        end_anchor: opt_json(c.end_anchor),
        start: None,
        end: None,
        content: opt_json(c.content),
        others: entries_view(c.others@),
    }
}

struct ExecDraft {
    op: Option<JsonValue>,
    start_line: Option<JsonValue>,
    end_line: Option<JsonValue>,
    start_anchor: Option<JsonValue>,
    end_anchor: Option<JsonValue>,
    start: Option<JsonValue>,
    end: Option<JsonValue>,
    content: Option<JsonValue>,
    others: Vec<(String, JsonValue)>,
}

spec fn draft_view(d: ExecDraft) -> Draft {
    Draft {
        op: opt_json(d.op),
        start_line: opt_json(d.start_line),
        end_line: opt_json(d.end_line),
        start_anchor: opt_json(d.start_anchor),
        end_anchor: opt_json(d.end_anchor),
        start: opt_json(d.start),
        end: opt_json(d.end),
        content: opt_json(d.content),
        others: entries_view(d.others@),
    }
}

pub open spec fn opt_str(o: Option<&str>) -> Option<Seq<char>> {
    match o {
        Some(s) => Some(s@),
        None => None,
    }
}

fn op_value_exec(v: &JsonValue) -> (r: JsonValue)
    ensures
        r@ == op_value(v@),
{
    match v {
        JsonValue::Str(s) => JsonValue::Str(normalize_edit_op_value(s.as_str())),
        _ => copy_value(v),
    }
}

fn canon_step_exec(d: &mut ExecDraft, key: &str, v: &JsonValue, inferred: Option<&str>)
    ensures
        draft_view(*final(d)) == canon_step(draft_view(*old(d)), key@, v@, opt_str(inferred)),
{
    let null = match v {
        JsonValue::Null => true,
        _ => false,
    };
    if str_eq(key, "path") || str_eq(key, "insertAfter") {
    } else if str_eq(key, "op") {
        if !null {
            d.op = Some(op_value_exec(v));
        }
    } else if str_eq(key, "action") {
        if !null && d.op.is_none() {
            d.op = Some(op_value_exec(v));
        }
    } else if str_eq(key, "line") || str_eq(key, "startLine") || str_eq(key, "afterLine") {
        if !null {
            d.start_line = Some(copy_value(v));
        }
    } else if str_eq(key, "endLine") {
        if !null {
            d.end_line = Some(copy_value(v));
        }
    } else if str_eq(key, "anchor") || str_eq(key, "startAnchor") {
        if !null {
            d.start_anchor = Some(copy_value(v));
        }
    } else if str_eq(key, "endAnchor") {
        if !null {
            d.end_anchor = Some(copy_value(v));
        }
    } else if str_eq(key, "start") {
        if !null {
            d.start = Some(copy_value(v));
        }
    } else if str_eq(key, "end") {
        if !null {
            d.end = Some(copy_value(v));
        }
    } else if str_eq(key, "new_value") || str_eq(key, "content") {
        let drop_legacy = str_eq(key, "new_value") && match inferred {
            Some(op) => str_eq(op, "delete"),
            None => false,
        };
        if !null && !drop_legacy {
            d.content = Some(copy_value(v));
        }
    } else {
        let ghost before = entries_view(d.others@);
        d.others.push((key.to_string(), copy_value(v)));
        assert(entries_view(d.others@) =~= before.push((key@, v@)));
    }
}

fn lookup_exec<'a>(e: &'a Vec<(String, JsonValue)>, key: &str) -> (r: Option<&'a JsonValue>)
    ensures
        match (r, lookup(entries_view(e@), key@)) {
            (Some(v), Some(w)) => v@ == w,
            (None, None) => true,
            _ => false,
        },
{
    let mut k = e.len();
    proof {
        assert(entries_view(e@).take(k as int) =~= entries_view(e@));
    }
    while k > 0
        invariant
            k <= e.len(),
            lookup(entries_view(e@), key@) == lookup(entries_view(e@).take(k as int), key@),
        decreases k,
    {
        let ghost t = entries_view(e@).take(k as int);
        assert(t.drop_last() =~= entries_view(e@).take(k - 1));
        assert(t.last() == (e@[k - 1].0@, e@[k - 1].1@));
        if str_eq(e[k - 1].0.as_str(), key) {
            return Some(&e[k - 1].1);
        }
        k -= 1;
    }
    None
}

/// The legacy op implied by the fields.
fn legacy_op_exec(e: &Vec<(String, JsonValue)>) -> (r: Option<&'static str>)
    ensures
        opt_str(r) == legacy_op_of(entries_view(e@)),
{
    let insert_after = match lookup_exec(e, "insertAfter") {
        Some(JsonValue::Bool(b)) => Some(*b),
        _ => None,
    };
    let new_value = match lookup_exec(e, "new_value") {
        Some(JsonValue::Str(s)) => Some(FieldValue::Str(s.clone())),
        Some(_) => Some(FieldValue::Other),
        None => None,
    };
    let r = infer_legacy_edit_op(insert_after, &new_value);
    proof {
        reveal_strlit("insertAfter");
    }
    r
}

/// The canonical form of an edit object given by its fields in key order:
/// the legacy op filled in, `start` / `end` expanded, and a top insert
/// assumed for bare content; or the message refusing a line reference.
pub fn canonicalize_edit_object(fields: &Vec<(String, JsonValue)>) -> (r: Result<CanonicalEdit, String>)
    ensures
        match (r, canonical_edit(entries_view(fields@))) {
            (Ok(c), Ok(d)) => canonical_view(c) == d,
            (Err(m), Err(n)) => m@ == n,
            _ => false,
        },
{
    let ghost e = entries_view(fields@);
    let inferred = legacy_op_exec(fields);
    let mut d = ExecDraft {
        op: None,
        start_line: None,
        end_line: None,
        start_anchor: None,
        end_anchor: None,
        start: None,
        end: None,
        content: None,
        others: Vec::new(),
    };
    assert(draft_view(d).others =~= Seq::<(Seq<char>, JsonView)>::empty());
    let mut i: usize = 0;
    while i < fields.len()
        invariant
            i <= fields.len(),
            e == entries_view(fields@),
            draft_view(d) == canon_fold(e.take(i as int), opt_str(inferred)),
        decreases fields.len() - i,
    {
        proof {
            assert(e.take(i + 1).drop_last() =~= e.take(i as int));
            assert(e.take(i + 1).last() == (fields@[i as int].0@, fields@[i as int].1@));
        }
        canon_step_exec(&mut d, fields[i].0.as_str(), &fields[i].1, inferred);
        i += 1;
    }
    proof {
        assert(e.take(fields.len() as int) =~= e);
    }
    // the op implied by legacy fields
    if d.op.is_none() {
        match inferred {
            Some(op) => {
                d.op = Some(JsonValue::Str(op.to_string()));
            },
            None => {},
        }
    }
    assert(draft_view(d) == with_inferred_op(canon_fold(e, opt_str(inferred)), opt_str(inferred)));
    // expand `start`
    let ghost d0 = draft_view(d);
    let start = d.start.take();
    match start {
        None => {},
        Some(JsonValue::Str(raw)) => {
            match parse_line_ref(raw.as_str(), "start") {
                Err(m) => {
                    return Err(m);
                },
                Ok((line, anchor)) => {
                    d.start_line = Some(JsonValue::UInt(line as u64));
                    match anchor {
                        Some(a) => {
                            d.start_anchor = Some(JsonValue::Str(a));
                        },
                        None => {},
                    }
                },
            }
        },
        Some(_) => {
            return Err("'start' must be a string (e.g. \"42:a31f2c\")".to_string());
        },
    }
    let ghost d1 = draft_view(d);
    let end = d.end.take();
    match end {
        None => {},
        Some(JsonValue::Str(raw)) => {
            match parse_line_ref(raw.as_str(), "end") {
                Err(m) => {
                    return Err(m);
                },
                Ok((line, anchor)) => {
                    if line == 0 {
                        return Err(
                            "'end' cannot be \"0\"; omit end for single-line edits or use a 1-based range".to_string(),
                        );
                    }
                    match anchor {
                        None => {
                            return Err("'end' must use \"N:anchor\" format (e.g. \"72:b47aa1\")".to_string());
                        },
                        Some(a) => {
                            d.end_line = Some(JsonValue::UInt(line as u64));
                            d.end_anchor = Some(JsonValue::Str(a));
                        },
                    }
                },
            }
        },
        Some(_) => {
            return Err("'end' must be a string (e.g. \"72:b47aa1\")".to_string());
        },
    }
    assert(expanded(d0) == Ok::<Draft, Seq<char>>(draft_view(d)));
    // bare content goes at the top
    if d.start_line.is_none() {
        let is_insert_after = match &d.op {
            Some(JsonValue::Str(op)) => str_eq(op.as_str(), "insert_after"),
            _ => false,
        };
        let touches = d.start_anchor.is_some() || d.end_anchor.is_some() || d.end_line.is_some();
        let non_empty = match &d.content {
            Some(JsonValue::Str(c)) => !c.as_str().is_empty(),
            _ => false,
        };
        if non_empty && !is_insert_after && !touches {
            d.start_line = Some(JsonValue::UInt(0));
        }
    }
    Ok(
        CanonicalEdit {
            op: d.op,
            start_line: d.start_line,
            end_line: d.end_line,
            start_anchor: d.start_anchor,
            end_anchor: d.end_anchor,
            content: d.content,
            others: d.others,
        },
    )
}

pub open spec fn as_str_view(o: Option<JsonView>) -> Option<Seq<char>> {
    match o {
        Some(JsonView::Str(s)) => Some(s),
        _ => None,
    }
}

pub open spec fn as_u64_view(o: Option<JsonView>) -> Option<u64> {
    match o {
        Some(JsonView::UInt(n)) => Some(n),
        _ => None,
    }
}

pub open spec fn opt_string(o: Option<String>) -> Option<Seq<char>> {
    match o {
        Some(s) => Some(s@),
        None => None,
    }
}

fn as_str_of(o: &Option<JsonValue>) -> (r: Option<String>)
    ensures
        opt_string(r) == as_str_view(opt_json(*o)),
{
    match o {
        Some(JsonValue::Str(s)) => Some(s.clone()),
        _ => None,
    }
}

fn as_u64_of(o: &Option<JsonValue>) -> (r: Option<u64>)
    ensures
        r == as_u64_view(opt_json(*o)),
{
    match o {
        Some(JsonValue::UInt(n)) => Some(*n),
        _ => None,
    }
}

/// What the rules for one edit read from its canonical form: the op and
/// anchors when they are strings, the line numbers when they are unsigned
/// integers, whether an end line was given, and the content. (The
/// canonical form has no `path`.)
pub fn edit_fields(c: &CanonicalEdit) -> (r: EditFields)
    ensures
        r.path is None,
        opt_string(r.op) == as_str_view(opt_json(c.op)),
        r.start_line == as_u64_view(opt_json(c.start_line)),
        r.end_line_present == c.end_line is Some,
        r.end_line == as_u64_view(opt_json(c.end_line)),
        opt_string(r.start_anchor) == as_str_view(opt_json(c.start_anchor)),
        opt_string(r.end_anchor) == as_str_view(opt_json(c.end_anchor)),
        match (r.content, opt_json(c.content)) {
            (Some(FieldValue::Str(s)), Some(JsonView::Str(t))) => s@ == t,
            (Some(FieldValue::Other), Some(v)) => !(v is Str),
            (None, None) => true,
            _ => false,
        },
{
    let content = match &c.content {
        Some(JsonValue::Str(s)) => Some(FieldValue::Str(s.clone())),
        Some(_) => Some(FieldValue::Other),
        None => None,
    };
    EditFields {
        path: None,
        op: as_str_of(&c.op),
        start_line: as_u64_of(&c.start_line),
        end_line_present: c.end_line.is_some(),
        end_line: as_u64_of(&c.end_line),
        content,
        start_anchor: as_str_of(&c.start_anchor),
        end_anchor: as_str_of(&c.end_anchor),
    }
}

} // verus!
