//! The `offset`, `size` and `showLineAnchors` arguments of a read, and
//! the text of its reply.
use vstd::prelude::*;
use crate::edit::string_views;
use crate::text::{chars_of, contains_lit, contains_seq, push_str, string_from_chars, trim, trim_chars};
use crate::write::opt_view;
use crate::sizes::{file_size_text, format_file_size};

verus! {

/// An integer argument as a request gives it: absent or null, an integer
/// that fits in `i64`, or anything else.
pub enum IntArg {
    Absent,
    Int(i64),
    NotInt,
}

/// A refused read argument: the message and the example to follow.
pub struct ArgRefusal {
    pub message: String,
    pub guidance: Vec<String>,
}

/// `offset`: absent means none, an integer is taken as it is, anything
/// else is refused.
pub fn parse_offset_parameter(arg: IntArg) -> (r: Result<Option<isize>, ArgRefusal>)
    ensures
        match arg {
            IntArg::Absent => r matches Ok(None),
            IntArg::Int(v) => r matches Ok(Some(x)) && x == v as isize,
            IntArg::NotInt => r matches Err(e) && e.message@ == "offset must be an integer"@ && string_views(
                e.guidance@,
            ) == seq!["Use an integer like {\"offset\": 10} or {\"offset\": -100}"@],
        },
{
    match arg {
        IntArg::Absent => Ok(None),
        IntArg::Int(v) => Ok(Some(v as isize)),
        IntArg::NotInt => {
            let mut g: Vec<String> = Vec::new();
            g.push("Use an integer like {\"offset\": 10} or {\"offset\": -100}".to_string());
            assert(string_views(g@) =~= seq!["Use an integer like {\"offset\": 10} or {\"offset\": -100}"@]);
            Err(ArgRefusal { message: "offset must be an integer".to_string(), guidance: g })
        },
    }
}

/// `size`: absent means none, an integer is taken as it is unless it is
/// zero, anything else is refused.
pub fn parse_size_parameter(arg: IntArg) -> (r: Result<Option<isize>, ArgRefusal>)
    ensures
        match arg {
            IntArg::Absent => r matches Ok(None),
            IntArg::Int(v) => if v as isize == 0 {
                r matches Err(e) && e.message@ == "size must be non-zero"@ && string_views(e.guidance@) == seq![
                    "To read a specific number of lines, specify a positive size (e.g. 50)"@,
                    "To read the end of the file (tail mode), specify a negative size (e.g. -20)"@,
                ]
            } else {
                r matches Ok(Some(x)) && x == v as isize
            },
            IntArg::NotInt => r matches Err(e) && e.message@ == "size must be an integer"@ && string_views(
                e.guidance@,
            ) == seq!["Use an integer like {\"size\": 50} or {\"size\": -20}"@],
        },
{
    match arg {
        IntArg::Absent => Ok(None),
        IntArg::Int(v) => {
            let sz = v as isize;
            if sz == 0 {
                let mut g: Vec<String> = Vec::new();
                g.push("To read a specific number of lines, specify a positive size (e.g. 50)".to_string());
                g.push("To read the end of the file (tail mode), specify a negative size (e.g. -20)".to_string());
                assert(string_views(g@) =~= seq![
                    "To read a specific number of lines, specify a positive size (e.g. 50)"@,
                    "To read the end of the file (tail mode), specify a negative size (e.g. -20)"@,
                ]);
                Err(ArgRefusal { message: "size must be non-zero".to_string(), guidance: g })
            } else {
                Ok(Some(sz))
            }
        },
        IntArg::NotInt => {
            let mut g: Vec<String> = Vec::new();
            g.push("Use an integer like {\"size\": 50} or {\"size\": -20}".to_string());
            assert(string_views(g@) =~= seq!["Use an integer like {\"size\": 50} or {\"size\": -20}"@]);
            Err(ArgRefusal { message: "size must be an integer".to_string(), guidance: g })
        },
    }
}

/// Anchors are shown when the build enables them and the request asks
/// with `showLineAnchors: true` (`None` when absent or not a boolean).
pub fn parse_show_line_anchors(anchors_enabled: bool, show: Option<bool>) -> (r: bool)
    ensures
        r == (anchors_enabled && show == Some(true)),
{
    anchors_enabled && match show {
        Some(b) => b,
        None => false,
    }
}

/// The reply to a read: the path, the file size, the summary and notes,
/// then the lines in a code block; with anchors, the line format is
/// explained and the two notes on anchors follow.
pub open spec fn read_reply(
    path: Seq<char>,
    file_bytes: nat,
    summary: Seq<char>,
    notes: Seq<char>,
    content: Seq<char>,
    language: Seq<char>,
    anchors: Option<(Seq<char>, Seq<char>)>,
) -> Seq<char> {
    let head = "📄 **`"@ + path + "`** — "@ + file_size_text(file_bytes) + " — "@ + summary + notes + "\n\n```"@;
    match anchors {
        Some((prefix_note, suffix_note)) => head + "\n"@ + content
            + "\n```\n\nLine format: `{lineNumber}:{anchor}|{content}`\n- `{lineNumber}`: 1-based line number\n- `{anchor}`: 6-character hex code (example: `792c6f`)\n- `{content}`: line content\n\n"@
            + prefix_note + suffix_note,
        None => head + language + "\n"@ + content + "\n```"@,
    }
}

/// The text of a read's reply (see `read_reply`); `anchor_notes` are the
/// two notes shown with anchors, when anchors are shown.
pub fn format_read_reply(
    path: &str,
    file_bytes: u64,
    summary: &str,
    notes: &str,
    content: &str,
    language: &str,
    anchor_notes: Option<(&str, &str)>,
) -> (r: String)
    ensures
        r@ == read_reply(
            path@,
            file_bytes as nat,
            summary@,
            notes@,
            content@,
            language@,
            match anchor_notes {
                Some((a, b)) => Some((a@, b@)),
                None => None,
            },
        ),
{
    let mut out: Vec<char> = Vec::new();
    push_str(&mut out, "📄 **`");
    push_str(&mut out, path);
    push_str(&mut out, "`** — ");
    let size = format_file_size(file_bytes);
    push_str(&mut out, size.as_str());
    push_str(&mut out, " — ");
    push_str(&mut out, summary);
    push_str(&mut out, notes);
    push_str(&mut out, "\n\n```");
    match anchor_notes {
        Some((a, b)) => {
            push_str(&mut out, "\n");
            push_str(&mut out, content);
            push_str(&mut out, "\n```\n\nLine format: `{lineNumber}:{anchor}|{content}`\n- `{lineNumber}`: 1-based line number\n- `{anchor}`: 6-character hex code (example: `792c6f`)\n- `{content}`: line content\n\n");
            push_str(&mut out, a);
            push_str(&mut out, b);
        },
        None => {
            push_str(&mut out, language);
            push_str(&mut out, "\n");
            push_str(&mut out, content);
            push_str(&mut out, "\n```");
        },
    }
    let r = string_from_chars(out.as_slice());
    assert(r@ =~= read_reply(
        path@,
        file_bytes as nat,
        summary@,
        notes@,
        content@,
        language@,
        match anchor_notes {
            Some((a, b)) => Some((a@, b@)),
            None => None,
        },
    ));
    r
}

/// The path of a read: absent (`Err` holds `"path"`), blank (`Err` holds
/// the empty text), holding `..` (`Err` holds `".."`), or the trimmed
/// path.
pub open spec fn read_path_outcome(path: Option<Seq<char>>) -> Result<Seq<char>, Seq<char>> {
    match path {
        None => Err("path"@),
        Some(p) => if trim(p).len() == 0 {
            Err(Seq::<char>::empty())
        } else if contains_seq(trim(p), ".."@) {
            Err(".."@)
        } else {
            Ok(trim(p))
        },
    }
}

/// Checks the path of a read; a refusal other than a missing path comes
/// with its message and guidance.
pub fn check_read_path(path: Option<&str>) -> (r: Result<String, Option<ArgRefusal>>)
    ensures
        match (r, read_path_outcome(opt_view(path))) {
            (Ok(p), Ok(q)) => p@ == q,
            (Err(None), Err(code)) => code == "path"@,
            (Err(Some(e)), Err(code)) => if code.len() == 0 {
                e.message@ == "Path parameter cannot be empty"@ && string_views(e.guidance@) == seq![
                    "Provide a file path (relative paths resolve from the workspace)"@,
                    "Examples: {\"path\": \"src/main.rs\"} or {\"path\": \"/tmp/file.txt\"}"@,
                    "Use workspace__listDirectory to explore available paths"@,
                ]
            } else {
                code == ".."@ && e.message@ == "Path traversal patterns (..) are not allowed"@ && string_views(
                    e.guidance@,
                ) == seq![
                    "Use a normal file path without '..' traversal segments"@,
                    "Example: 'src/main.rs' instead of '../src/main.rs'"@,
                    "Use workspace__listDirectory to explore available paths"@,
                ]
            },
            _ => false,
        },
{
    let p = match path {
        None => {
            return Err(None);
        },
        Some(p) => p,
    };
    let t = trim_chars(chars_of(p).as_slice());
    if t.len() == 0 {
        let mut g: Vec<String> = Vec::new();
        g.push("Provide a file path (relative paths resolve from the workspace)".to_string());
        g.push("Examples: {\"path\": \"src/main.rs\"} or {\"path\": \"/tmp/file.txt\"}".to_string());
        g.push("Use workspace__listDirectory to explore available paths".to_string());
        assert(string_views(g@) =~= seq![
            "Provide a file path (relative paths resolve from the workspace)"@,
            "Examples: {\"path\": \"src/main.rs\"} or {\"path\": \"/tmp/file.txt\"}"@,
            "Use workspace__listDirectory to explore available paths"@,
        ]);
        return Err(Some(ArgRefusal { message: "Path parameter cannot be empty".to_string(), guidance: g }));
    }
    if contains_lit(t.as_slice(), "..") {
        let mut g: Vec<String> = Vec::new();
        g.push("Use a normal file path without '..' traversal segments".to_string());
        g.push("Example: 'src/main.rs' instead of '../src/main.rs'".to_string());
        g.push("Use workspace__listDirectory to explore available paths".to_string());
        assert(string_views(g@) =~= seq![
            "Use a normal file path without '..' traversal segments"@,
            "Example: 'src/main.rs' instead of '../src/main.rs'"@,
            "Use workspace__listDirectory to explore available paths"@,
        ]);
        proof {
            reveal_strlit("..");
        }
        return Err(Some(ArgRefusal { message: "Path traversal patterns (..) are not allowed".to_string(), guidance: g }));
    }
    Ok(string_from_chars(t.as_slice()))
}

} // verus!
