//! The arguments of the search tools: which search a request asks for,
//! the checks on each search's arguments, and the regex of a content
//! search.
use vstd::prelude::*;
use crate::text::{push_str, string_from_chars};
use crate::edit::string_views;
use crate::grep::{reject_empty_optional_str, InvalidArgument};
use crate::write::opt_view;
use crate::search::{compile_regex, regex_error, TextRegex};

verus! {

/// Which search a request asks for.
pub enum SearchRoute {
    /// A search of file contents (`query` given).
    Content,
    /// A search of file names (`filePattern` given, no `query`).
    FileNames,
    /// Neither, or an empty one.
    Refused { message: String, guidance: Vec<String> },
}

/// The routing rule: an empty `query` or `filePattern` is refused, a
/// `query` means a content search, a `filePattern` alone a file-name
/// search, and neither is refused. (`Err` holds the refusal's message.)
pub open spec fn route(query: Option<Seq<char>>, file_pattern: Option<Seq<char>>) -> Result<bool, Seq<char>> {
    if query == Some(Seq::<char>::empty()) {
        Err("Invalid query: query must not be empty"@)
    } else if file_pattern == Some(Seq::<char>::empty()) {
        Err("Invalid filePattern: filePattern must not be empty"@)
    } else if query is Some {
        Ok(true)
    } else if file_pattern is Some {
        Ok(false)
    } else {
        Err("Provide either 'query' (to search text) or 'filePattern' (to find files)"@)
    }
}

/// Decides which search a request asks for (each argument `None` when
/// absent or not a string).
pub fn route_search(query: Option<&str>, file_pattern: Option<&str>) -> (r: SearchRoute)
    ensures
        match (r, route(opt_view(query), opt_view(file_pattern))) {
            (SearchRoute::Content, Ok(true)) => true,
            (SearchRoute::FileNames, Ok(false)) => true,
            (SearchRoute::Refused { message, guidance }, Err(m)) => message@ == m && guidance@.len() == 2,
            _ => false,
        },
{
    let q_empty = match query {
        Some(q) => q.is_empty(),
        None => false,
    };
    let f_empty = match file_pattern {
        Some(f) => f.is_empty(),
        None => false,
    };
    proof {
        reveal_strlit("");
    }
    if q_empty {
        let mut g: Vec<String> = Vec::new();
        g.push("Provide a non-empty regex pattern for content search with workspace__grepFiles".to_string());
        g.push("Use workspace__globFiles with filePattern when you only want to find files".to_string());
        assert(opt_view(query) == Some(Seq::<char>::empty()));
        return SearchRoute::Refused { message: "Invalid query: query must not be empty".to_string(), guidance: g };
    }
    if f_empty {
        let mut g: Vec<String> = Vec::new();
        g.push("Provide a non-empty glob like `*.rs` or `src/**/*.ts`".to_string());
        g.push(
            "Omit filePattern when you want content search across all files with workspace__grepFiles".to_string(),
        );
        assert(opt_view(file_pattern) == Some(Seq::<char>::empty()));
        return SearchRoute::Refused {
            message: "Invalid filePattern: filePattern must not be empty".to_string(),
            guidance: g,
        };
    }
    if query.is_some() {
        return SearchRoute::Content;
    }
    if file_pattern.is_some() {
        return SearchRoute::FileNames;
    }
    let mut g: Vec<String> = Vec::new();
    g.push("Use workspace__grepFiles with query for content search".to_string());
    g.push("Use workspace__globFiles with filePattern for filename search".to_string());
    SearchRoute::Refused {
        message: "Provide either 'query' (to search text) or 'filePattern' (to find files)".to_string(),
        guidance: g,
    }
}

/// A problem with the arguments of a search: a required field is
/// missing, or a field is refused.
pub enum SearchArgProblem {
    Missing { field: String },
    Invalid(InvalidArgument),
}

/// The checked arguments of a content search.
pub struct GrepArgs {
    pub path: String,
    pub query: String,
    pub file_pattern: Option<String>,
}

/// Checks the arguments of a content search: `path` and `query` are
/// required, `query` and a given `filePattern` must not be empty.
pub fn check_grep_args(path: Option<&str>, query: Option<&str>, file_pattern: Option<&str>) -> (r: Result<
    GrepArgs,
    SearchArgProblem,
>)
    ensures
        match r {
            Ok(a) => match (path, query) {
                (Some(p), Some(q)) => a.path@ == p@ && a.query@ == q@ && q@.len() > 0 && match (
                    file_pattern,
                    a.file_pattern,
                ) {
                    (Some(f), Some(g)) => f@ == g@ && f@.len() > 0,
                    (None, None) => true,
                    _ => false,
                },
                _ => false,
            },
            Err(SearchArgProblem::Missing { field }) => match (path, query) {
                (None, _) => field@ == "path"@,
                (Some(_), None) => field@ == "query"@,
                _ => false,
            },
            Err(SearchArgProblem::Invalid(e)) => match (path, query) {
                (Some(_), Some(q)) => if q@.len() == 0 {
                    e.message@ == "Invalid query: query must not be empty"@
                } else {
                    match file_pattern {
                        Some(f) => f@.len() == 0 && e.message@ == "Invalid filePattern: filePattern must not be empty"@,
                        None => false,
                    }
                },
                _ => false,
            },
        },
{
    let p = match path {
        None => {
            return Err(SearchArgProblem::Missing { field: "path".to_string() });
        },
        Some(p) => p,
    };
    let q = match query {
        None => {
            return Err(SearchArgProblem::Missing { field: "query".to_string() });
        },
        Some(q) => q,
    };
    let mut qg: Vec<String> = Vec::new();
    qg.push("Provide a non-empty regex pattern for content search".to_string());
    match reject_empty_optional_str(Some(q), "query", qg) {
        Err(e) => {
            proof {
                reveal_strlit("query");
                reveal_strlit("Invalid ");
                reveal_strlit(": ");
                reveal_strlit(" must not be empty");
                reveal_strlit("Invalid query: query must not be empty");
            }
            assert(e.message@ =~= "Invalid query: query must not be empty"@);
            return Err(SearchArgProblem::Invalid(e));
        },
        Ok(_) => {},
    }
    let mut fg: Vec<String> = Vec::new();
    fg.push("Provide a non-empty glob like `*.rs` or `src/**/*.ts`".to_string());
    fg.push("Omit filePattern when you want content search across all files".to_string());
    match reject_empty_optional_str(file_pattern, "filePattern", fg) {
        Err(e) => {
            proof {
                reveal_strlit("filePattern");
                reveal_strlit("Invalid ");
                reveal_strlit(": ");
                reveal_strlit(" must not be empty");
                reveal_strlit("Invalid filePattern: filePattern must not be empty");
            }
            assert(e.message@ =~= "Invalid filePattern: filePattern must not be empty"@);
            return Err(SearchArgProblem::Invalid(e));
        },
        Ok(_) => {},
    }
    let f = match file_pattern {
        Some(f) => Some(f.to_string()),
        None => None,
    };
    Ok(GrepArgs { path: p.to_string(), query: q.to_string(), file_pattern: f })
}

/// Checks the arguments of a file-name search: `path` and `filePattern`
/// are required and the pattern must not be empty; gives both back.
pub fn check_glob_args(path: Option<&str>, file_pattern: Option<&str>) -> (r: Result<(String, String), SearchArgProblem>)
    ensures
        match r {
            Ok((p, f)) => match (path, file_pattern) {
                (Some(x), Some(y)) => p@ == x@ && f@ == y@ && y@.len() > 0,
                _ => false,
            },
            Err(SearchArgProblem::Missing { field }) => match (path, file_pattern) {
                (None, _) => field@ == "path"@,
                (Some(_), None) => field@ == "filePattern"@,
                _ => false,
            },
            Err(SearchArgProblem::Invalid(e)) => match (path, file_pattern) {
                (Some(_), Some(y)) => y@.len() == 0 && e.message@ == "Invalid filePattern: filePattern must not be empty"@,
                _ => false,
            },
        },
{
    let p = match path {
        None => {
            return Err(SearchArgProblem::Missing { field: "path".to_string() });
        },
        Some(p) => p,
    };
    let f = match file_pattern {
        None => {
            return Err(SearchArgProblem::Missing { field: "filePattern".to_string() });
        },
        Some(f) => f,
    };
    let mut g: Vec<String> = Vec::new();
    g.push("Provide a non-empty glob like `*.rs` or `src/**/*.ts`".to_string());
    match reject_empty_optional_str(Some(f), "filePattern", g) {
        Err(e) => {
            proof {
                reveal_strlit("filePattern");
                reveal_strlit("Invalid ");
                reveal_strlit(": ");
                reveal_strlit(" must not be empty");
                reveal_strlit("Invalid filePattern: filePattern must not be empty");
            }
            assert(e.message@ =~= "Invalid filePattern: filePattern must not be empty"@);
            return Err(SearchArgProblem::Invalid(e));
        },
        Ok(_) => {},
    }
    Ok((p.to_string(), f.to_string()))
}

/// The refusal to search a single internal temp or export artifact.
pub fn internal_artifact_refusal() -> (r: (String, Vec<String>))
    ensures
        r.0@ == "Internal LibrAgent temp/export artifacts are excluded from search"@,
        string_views(r.1@) == seq![
            "Search workspace files outside .libragent/tmp and .libragent/exports"@,
            "Use workspace__readProcessOutput or workspace__listProcesses to inspect temp process output"@,
            "Use workspace__export on real workspace files instead of searching generated export artifacts"@,
        ],
{
    let mut g: Vec<String> = Vec::new();
    g.push("Search workspace files outside .libragent/tmp and .libragent/exports".to_string());
    g.push("Use workspace__readProcessOutput or workspace__listProcesses to inspect temp process output".to_string());
    g.push("Use workspace__export on real workspace files instead of searching generated export artifacts".to_string());
    let r = ("Internal LibrAgent temp/export artifacts are excluded from search".to_string(), g);
    assert(string_views(r.1@) =~= seq![
        "Search workspace files outside .libragent/tmp and .libragent/exports"@,
        "Use workspace__readProcessOutput or workspace__listProcesses to inspect temp process output"@,
        "Use workspace__export on real workspace files instead of searching generated export artifacts"@,
    ]);
    r
}

// ---------------------------------------------------------------------------
// The regex of a content search
// ---------------------------------------------------------------------------

/// The regex of a content search, or the refusal naming the compiler's
/// error.
pub fn build_search_regex(query: &str, ignore_case: bool) -> (r: Result<TextRegex, (String, Vec<String>)>)
    ensures
        match r {
            Ok(x) => x.source() == query@ && x.case_insensitive() == ignore_case && x.multi_line() && x.crlf()
                && regex_error(query@, ignore_case, true, true) is None,
            Err((m, g)) => match regex_error(query@, ignore_case, true, true) {
                Some(e) => m@ == "Invalid regex pattern: "@ + e && string_views(g@) == seq![
                    "Check regex syntax - use basic patterns like 'error|warning'"@,
                    "Escape special characters with backslash: \\. \\* \\+ \\?"@,
                ],
                None => false,
            },
        },
{
    match compile_regex(query, ignore_case, true, true) {
        Ok(re) => Ok(re),
        Err(e) => Err(invalid_regex_message(e.as_str())),
    }
}

/// The refusal of a pattern the regex compiler rejected with `error`.
pub fn invalid_regex_message(error: &str) -> (r: (String, Vec<String>))
    ensures
        r.0@ == "Invalid regex pattern: "@ + error@,
        string_views(r.1@) == seq![
            "Check regex syntax - use basic patterns like 'error|warning'"@,
            "Escape special characters with backslash: \\. \\* \\+ \\?"@,
        ],
{
    let mut m: Vec<char> = Vec::new();
    push_str(&mut m, "Invalid regex pattern: ");
    push_str(&mut m, error);
    let mut g: Vec<String> = Vec::new();
    g.push("Check regex syntax - use basic patterns like 'error|warning'".to_string());
    g.push("Escape special characters with backslash: \\. \\* \\+ \\?".to_string());
    assert(string_views(g@) =~= seq![
        "Check regex syntax - use basic patterns like 'error|warning'"@,
        "Escape special characters with backslash: \\. \\* \\+ \\?"@,
    ]);
    (string_from_chars(m.as_slice()), g)
}

} // verus!
