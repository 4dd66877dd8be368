//! File-pattern matching and the preview of a matching line in content
//! search.
use vstd::prelude::*;
use crate::text::{chars_of, contains_seq, dec, has_char, push_chars, push_dec, push_str, slice_chars, starts_with, string_from_chars, contains_char};
use crate::edit::string_views;
use crate::braces::{brace_expansion, expand_brace_globs, MAX_BRACE_GLOB_EXPANSIONS};
use crate::read::{byte_len, byte_len_exec, lemma_byte_len_bound};

verus! {

/// Cap for a single grep matching line in output; a continuation read of
/// 200 lines can reopen it.
pub const MAX_GREP_MATCH_LINE_CHARS: usize = 200usize;

// ---------------------------------------------------------------------------
// Glob patterns
// ---------------------------------------------------------------------------

#[verifier::external_type_specification]
#[verifier::external_body]
pub struct ExGlobPattern(glob::Pattern);

/// A glob without metacharacters: it holds none of `?`, `*` and `[`.
pub open spec fn is_literal_glob(src: Seq<char>) -> bool {
    !has_char(src, '?') && !has_char(src, '*') && !has_char(src, '[')
}

/// A compiled glob, with the text it was compiled from.
pub struct CompiledGlob {
    pattern: glob::Pattern,
    source: String,
}

impl CompiledGlob {
    /// The text the glob was compiled from.
    pub closed spec fn source(&self) -> Seq<char> {
        self.source@
    }
}

/// Compile a glob with `glob::Pattern::new`, keeping its text; a refusal
/// is rendered with its `Display` text, which begins "Pattern syntax
/// error near position". The crate's source refuses only runs of `*`
/// that are not a lone `*` or a `**` forming a whole path component, and
/// malformed `[` ranges, so a glob with no `[` and no `**` always
/// compiles; which globs with those are refused depends on the platform's
/// path separators and is not stated.
#[verifier::external_body]
fn compile_glob(src: &str) -> (r: Result<CompiledGlob, String>)
    ensures
        r matches Ok(g) ==> g.source() == src@,
        r matches Err(m) ==> starts_with(m@, "Pattern syntax error near position "@),
        !has_char(src@, '[') && !contains_seq(src@, "**"@) ==> r is Ok,
{
    glob::Pattern::new(src).map(|pattern| CompiledGlob { pattern, source: src.to_string() }).map_err(|e| e.to_string())
}

/// What the glob crate's source shows a compiled glob matches on every
/// platform with the default options: a glob without metacharacters
/// matches its own text, and `*` matches every string.
pub open spec fn glob_surely_matches(src: Seq<char>, candidate: Seq<char>) -> bool {
    (is_literal_glob(src) && candidate == src) || src == "*"@
}

/// A glob without path separators (`/` or `\`): the glob crate then
/// treats every character of a candidate alike on every platform.
pub open spec fn separator_free(src: Seq<char>) -> bool {
    !has_char(src, '/') && !has_char(src, '\\')
}

/// Wildcard matching: `*` matches any run of characters (separators
/// included), `?` any one character, and every other character itself.
pub open spec fn wildcard_match(p: Seq<char>, s: Seq<char>) -> bool
    decreases p.len(), s.len(),
{
    if p.len() == 0 {
        s.len() == 0
    } else if p[0] == '*' {
        wildcard_match(p.drop_first(), s) || (s.len() > 0 && wildcard_match(p, s.drop_first()))
    } else if s.len() == 0 {
        false
    } else if p[0] == '?' || p[0] == s[0] {
        wildcard_match(p.drop_first(), s.drop_first())
    } else {
        false
    }
}

/// What `glob::Pattern::matches` (default options) answers for a
/// compiled glob without path separators that holds a `[` character
/// class, on a candidate string.
pub uninterp spec fn glob_class_match(pattern: Seq<char>, candidate: Seq<char>) -> bool;

/// The answer of the glob crate for a compiled glob without path
/// separators: wildcard matching, or the named answer when the glob holds
/// a character class.
pub open spec fn glob_answer(src: Seq<char>, candidate: Seq<char>) -> bool {
    if has_char(src, '[') {
        glob_class_match(src, candidate)
    } else {
        wildcard_match(src, candidate)
    }
}

/// Whether a compiled glob matches a string (`glob::Pattern::matches`,
/// default options). The crate's source shows that with the default
/// options the platform matters only for separators in the glob (in `**`
/// and in comparing `/` with `\`): for a glob without separators the
/// answer is wildcard matching (`*` any run, `?` any character, else the
/// character itself), and for such a glob with a `[` class it is named.
/// A glob without metacharacters matches its own text and `*` every
/// string on every platform; other globs with separators are not stated.
#[verifier::external_body]
fn glob_matches(glob: &CompiledGlob, candidate: &str) -> (r: bool)
    ensures
        glob_surely_matches(glob.source(), candidate@) ==> r,
        separator_free(glob.source()) && !has_char(glob.source(), '[') ==> r == wildcard_match(
            glob.source(),
            candidate@,
        ),
        separator_free(glob.source()) && has_char(glob.source(), '[') ==> r == glob_class_match(
            glob.source(),
            candidate@,
        ),
{
    glob.pattern.matches(candidate)
}

/// A file pattern with its brace groups expanded, each alternative
/// compiled.
pub struct GlobMatcher {
    pub patterns: Vec<CompiledGlob>,
}

impl GlobMatcher {
    /// How many globs the pattern expanded to.
    pub fn len(&self) -> (r: usize)
        ensures
            r == self.patterns@.len(),
    {
        self.patterns.len()
    }

    /// Expand the braces of a file pattern and compile each alternative.
    ///
    /// Refused with the expansion's error when the braces do not expand;
    /// with a count when there are more than 64 alternatives; and with the
    /// compiler's message, naming the first alternative that does not
    /// compile, otherwise. On success there is one compiled glob per
    /// alternative.
    pub fn parse(pattern: &str) -> (r: Result<GlobMatcher, String>)
        ensures
            match (r, brace_expansion(pattern@)) {
                (Err(e), Err(m)) => e@ == m,
                (Ok(_), Err(_)) => false,
                (Ok(g), Ok(exp)) => g.patterns@.len() == exp.len() && exp.len() <= 64 && forall|k: int|
                    0 <= k < exp.len() ==> (#[trigger] g.patterns@[k]).source() == exp[k],
                (Err(e), Ok(exp)) => if exp.len() > 64 {
                    e@ == "filePattern expands to "@ + dec(exp.len()) + " globs (max 64)"@
                } else {
                    exists|k: int|
                        0 <= k < exp.len() && starts_with(e@, "Invalid filePattern `"@ + #[trigger] exp[k] + "`: "@ + "Pattern syntax error near position "@)
                        && (has_char(exp[k], '[') || contains_seq(exp[k], "**"@))
                },
            },
            brace_expansion(pattern@) matches Ok(exp) && exp.len() <= 64 && (forall|k: int|
                0 <= k < exp.len() ==> !has_char(#[trigger] exp[k], '[') && !contains_seq(exp[k], "**"@)) ==> r is Ok,
    {
        let expanded = match expand_brace_globs(pattern) {
            Ok(v) => v,
            Err(m) => {
                return Err(m);
            },
        };
        let ghost exp = string_views(expanded@);
        if expanded.len() > MAX_BRACE_GLOB_EXPANSIONS {
            let mut m: Vec<char> = Vec::new();
            push_str(&mut m, "filePattern expands to ");
            push_dec(&mut m, expanded.len() as u64);
            push_str(&mut m, " globs (max 64)");
            assert(m@ =~= "filePattern expands to "@ + dec(exp.len()) + " globs (max 64)"@);
            return Err(string_from_chars(m.as_slice()));
        }
        let mut patterns: Vec<CompiledGlob> = Vec::new();
        let mut i: usize = 0;
        while i < expanded.len()
            invariant
                i <= expanded@.len(),
                exp == string_views(expanded@),
                brace_expansion(pattern@) == Ok::<Seq<Seq<char>>, Seq<char>>(exp),
                exp.len() <= 64,
                patterns@.len() == i,
                forall|k: int| 0 <= k < i ==> (#[trigger] patterns@[k]).source() == exp[k],
            decreases expanded@.len() - i,
        {
            match compile_glob(expanded[i].as_str()) {
                Ok(p) => patterns.push(p),
                Err(e) => {
                    let mut m: Vec<char> = Vec::new();
                    push_str(&mut m, "Invalid filePattern `");
                    push_str(&mut m, expanded[i].as_str());
                    push_str(&mut m, "`: ");
                    push_str(&mut m, e.as_str());
                    assert(m@ =~= "Invalid filePattern `"@ + exp[i as int] + "`: "@ + e@);
                    proof {
                        let pre = "Invalid filePattern `"@ + exp[i as int] + "`: "@;
                        let pp = "Pattern syntax error near position "@;
                        assert(e@.take(pp.len() as int) == pp);
                        assert((pre + e@).take((pre + pp).len() as int) =~= pre + pp);
                        assert(starts_with(m@, pre + pp));
                    }
                    return Err(string_from_chars(m.as_slice()));
                },
            }
            i += 1;
        }
        Ok(GlobMatcher { patterns })
    }
}

/// The strings a file is matched as, in order: its file name when given,
/// its path, and its path with backslashes turned into slashes when it has
/// any and that normalisation is asked for.
pub open spec fn glob_candidates(path: Seq<char>, file_name: Option<Seq<char>>, normalize: bool) -> Seq<Seq<char>> {
    (match file_name {
        Some(n) => seq![n],
        None => Seq::empty(),
    }) + seq![path] + if normalize && has_char(path, '\\') {
        seq![Seq::new(path.len(), |i: int| if path[i] == '\\' { '/' } else { path[i] })]
    } else {
        Seq::empty()
    }
}

/// The candidate strings of a file (see `glob_candidates`).
pub fn glob_match_candidates(path: &str, file_name: Option<&str>, normalize_backslashes: bool) -> (r: Vec<String>)
    ensures
        string_views(r@) == glob_candidates(path@, crate::utils::opt_str_view(file_name), normalize_backslashes),
{
    let mut out: Vec<String> = Vec::new();
    if let Some(n) = file_name {
        out.push(string_from_chars(chars_of(n).as_slice()));
    }
    out.push(string_from_chars(chars_of(path).as_slice()));
    let p = chars_of(path);
    if normalize_backslashes && contains_char(p.as_slice(), '\\') {
        let mut q: Vec<char> = Vec::new();
        let mut i: usize = 0;
        while i < p.len()
            invariant
                i <= p@.len(),
                q@ == Seq::new(i as nat, |k: int| if p@[k] == '\\' { '/' } else { p@[k] }),
            decreases p@.len() - i,
        {
            q.push(if p[i] == '\\' { '/' } else { p[i] });
            assert(q@ =~= Seq::new((i + 1) as nat, |k: int| if p@[k] == '\\' { '/' } else { p@[k] }));
            i += 1;
        }
        out.push(string_from_chars(q.as_slice()));
    }
    assert(string_views(out@) =~= glob_candidates(path@, crate::utils::opt_str_view(file_name), normalize_backslashes));
    out
}

/// Some glob of the matcher surely matches some candidate string of the
/// file (see `glob_surely_matches` and `glob_candidates`).
pub open spec fn surely_matched(globs: Seq<CompiledGlob>, candidates: Seq<Seq<char>>) -> bool {
    exists|k: int, j: int|
        0 <= k < globs.len() && 0 <= j < candidates.len() && glob_surely_matches(
            #[trigger] globs[k].source(),
            #[trigger] candidates[j],
        )
}

/// Some glob without path separators matches some candidate string (see
/// `glob_answer`).
pub open spec fn answer_matched(globs: Seq<CompiledGlob>, candidates: Seq<Seq<char>>) -> bool {
    exists|k: int, j: int|
        0 <= k < globs.len() && 0 <= j < candidates.len() && separator_free(#[trigger] globs[k].source())
            && glob_answer(globs[k].source(), #[trigger] candidates[j])
}

/// Some glob may match some candidate string: it has path separators (its
/// answer is the platform's), or its answer is yes.
pub open spec fn may_have_matched(globs: Seq<CompiledGlob>, candidates: Seq<Seq<char>>) -> bool {
    exists|k: int, j: int|
        0 <= k < globs.len() && 0 <= j < candidates.len() && (!separator_free(#[trigger] globs[k].source())
            || glob_answer(globs[k].source(), #[trigger] candidates[j]))
}

/// Every glob of the matcher is free of path separators.
pub open spec fn all_separator_free(globs: Seq<CompiledGlob>) -> bool {
    forall|k: int| 0 <= k < globs.len() ==> separator_free(#[trigger] globs[k].source())
}

/// Whether any expanded glob matches any candidate string of the file (see
/// `glob_candidates`); the globs are tried in order, each against the
/// candidates in order. A glob without path separators matches as
/// `glob_answer` says (wildcard matching, or the named answer for a glob
/// with a `[` class); when every glob is such, the file matches exactly
/// when one of them matches one of its candidate strings. A glob with path
/// separators matches as the glob library answers on this platform, which
/// is stated only where it is the same everywhere (its own text when it
/// has no metacharacters, and `*`).
pub fn matches_glob(matcher: &GlobMatcher, path: &str, file_name: Option<&str>, normalize_backslashes: bool) -> (r: bool)
    ensures
        matcher.patterns@.len() == 0 ==> !r,
        surely_matched(
            matcher.patterns@,
            glob_candidates(path@, crate::utils::opt_str_view(file_name), normalize_backslashes),
        ) ==> r,
        answer_matched(
            matcher.patterns@,
            glob_candidates(path@, crate::utils::opt_str_view(file_name), normalize_backslashes),
        ) ==> r,
        r ==> may_have_matched(
            matcher.patterns@,
            glob_candidates(path@, crate::utils::opt_str_view(file_name), normalize_backslashes),
        ),
        all_separator_free(matcher.patterns@) ==> (r <==> answer_matched(
            matcher.patterns@,
            glob_candidates(path@, crate::utils::opt_str_view(file_name), normalize_backslashes),
        )),
{
    let candidates = glob_match_candidates(path, file_name, normalize_backslashes);
    let ghost cs = glob_candidates(path@, crate::utils::opt_str_view(file_name), normalize_backslashes);
    let ghost gs = matcher.patterns@;
    let mut i: usize = 0;
    while i < matcher.patterns.len()
        invariant
            i <= gs.len(),
            gs == matcher.patterns@,
            cs == glob_candidates(path@, crate::utils::opt_str_view(file_name), normalize_backslashes),
            string_views(candidates@) == cs,
            forall|k: int, j: int|
                0 <= k < i && 0 <= j < cs.len() ==> !glob_surely_matches(#[trigger] gs[k].source(), #[trigger] cs[j])
                    && (separator_free(gs[k].source()) ==> !glob_answer(gs[k].source(), cs[j])),
        decreases gs.len() - i,
    {
        let mut j: usize = 0;
        while j < candidates.len()
            invariant
                j <= candidates@.len(),
                i < gs.len(),
                gs == matcher.patterns@,
                cs == glob_candidates(path@, crate::utils::opt_str_view(file_name), normalize_backslashes),
                string_views(candidates@) == cs,
                forall|k: int, l: int|
                    0 <= k < i && 0 <= l < cs.len() ==> !glob_surely_matches(#[trigger] gs[k].source(), #[trigger] cs[l])
                        && (separator_free(gs[k].source()) ==> !glob_answer(gs[k].source(), cs[l])),
                forall|l: int|
                    0 <= l < j ==> !glob_surely_matches(gs[i as int].source(), #[trigger] cs[l]) && (separator_free(
                        gs[i as int].source(),
                    ) ==> !glob_answer(gs[i as int].source(), cs[l])),
            decreases candidates@.len() - j,
        {
            assert(cs[j as int] == candidates@[j as int]@);
            if glob_matches(&matcher.patterns[i], candidates[j].as_str()) {
                proof {
                    assert(cs.len() == candidates@.len());
                    assert(!separator_free(gs[i as int].source()) || glob_answer(gs[i as int].source(), cs[j as int]));
                    assert(may_have_matched(gs, cs));
                    if all_separator_free(gs) {
                        assert(separator_free(gs[i as int].source()));
                        assert(answer_matched(gs, cs));
                    }
                }
                return true;
            }
            j += 1;
        }
        i += 1;
    }
    false
}

// ---------------------------------------------------------------------------
// Previewing a matching line
// ---------------------------------------------------------------------------

#[verifier::external_type_specification]
#[verifier::external_body]
pub struct ExRegex(regex::Regex);

/// `byte` is the byte offset of a character boundary of `s`.
pub open spec fn is_char_boundary(s: Seq<char>, byte: int) -> bool {
    exists|k: int| 0 <= k <= s.len() && byte_len(#[trigger] s.take(k)) == byte
}

// ---------------------------------------------------------------------------
// Regular expressions
// ---------------------------------------------------------------------------

/// Whether `regex` compiles `pattern` with the given options (case
/// insensitivity, `^`/`$` at line ends, `\r\n` understood as a line
/// ending): `None` when it does, else the crate's error text.
pub uninterp spec fn regex_error(pattern: Seq<char>, ignore_case: bool, multi_line: bool, crlf: bool) -> Option<Seq<char>>;

/// The matches that `regex::Regex::find_iter` reports for a regex
/// compiled from `pattern` with the given options, in a text, as byte
/// offsets.
pub uninterp spec fn regex_spans(pattern: Seq<char>, ignore_case: bool, multi_line: bool, crlf: bool, hay: Seq<char>) -> Seq<(usize, usize)>;

/// The match that `regex::Regex::find` reports for a regex compiled from
/// `pattern` with the given options, in a text, as byte offsets.
pub uninterp spec fn regex_first(pattern: Seq<char>, ignore_case: bool, multi_line: bool, crlf: bool, hay: Seq<char>) -> Option<(usize, usize)>;

/// What `regex::Regex::is_match` answers for a regex compiled from
/// `pattern` with the given options, on a text.
pub uninterp spec fn regex_is_match(pattern: Seq<char>, ignore_case: bool, multi_line: bool, crlf: bool, hay: Seq<char>) -> bool;

/// A compiled regular expression, with the pattern and the options it was
/// compiled from.
pub struct TextRegex {
    re: regex::Regex,
    pattern: String,
    ignore_case: bool,
    multi_line: bool,
    crlf: bool,
}

impl TextRegex {
    /// The pattern the regex was compiled from.
    pub closed spec fn source(&self) -> Seq<char> {
        self.pattern@
    }

    /// It was compiled case-insensitive.
    pub closed spec fn case_insensitive(&self) -> bool {
        self.ignore_case
    }

    /// It was compiled with `^` and `$` matching at line ends.
    pub closed spec fn multi_line(&self) -> bool {
        self.multi_line
    }

    /// It was compiled with `\r\n` understood as a line ending.
    pub closed spec fn crlf(&self) -> bool {
        self.crlf
    }

    /// Compiles `pattern` with the default options, as `regex::Regex::new`
    /// does.
    pub fn new(pattern: &str) -> (r: Result<TextRegex, String>)
        ensures
            match r {
                Ok(x) => x.source() == pattern@ && !x.case_insensitive() && !x.multi_line() && !x.crlf() && regex_error(
                    pattern@,
                    false,
                    false,
                    false,
                ) is None,
                Err(e) => regex_error(pattern@, false, false, false) == Some(e@),
            },
    {
        compile_regex(pattern, false, false, false)
    }
}

/// The matches of a compiled regex in a text.
pub open spec fn spans_of(re: TextRegex, hay: Seq<char>) -> Seq<(usize, usize)> {
    regex_spans(re.source(), re.case_insensitive(), re.multi_line(), re.crlf(), hay)
}

/// The first match of a compiled regex in a text.
pub open spec fn first_match_of(re: TextRegex, hay: Seq<char>) -> Option<(usize, usize)> {
    regex_first(re.source(), re.case_insensitive(), re.multi_line(), re.crlf(), hay)
}

/// Whether a compiled regex matches somewhere in a text.
pub open spec fn is_match_of(re: TextRegex, hay: Seq<char>) -> bool {
    regex_is_match(re.source(), re.case_insensitive(), re.multi_line(), re.crlf(), hay)
}

/// `regex::RegexBuilder` with the given options, keeping the pattern and
/// options; the outcome is named.
#[verifier::external_body]
pub(crate) fn compile_regex(pattern: &str, ignore_case: bool, multi_line: bool, crlf: bool) -> (r: Result<TextRegex, String>)
    ensures
        match r {
            Ok(x) => x.source() == pattern@ && x.case_insensitive() == ignore_case && x.multi_line() == multi_line
                && x.crlf() == crlf && regex_error(pattern@, ignore_case, multi_line, crlf) is None,
            Err(e) => regex_error(pattern@, ignore_case, multi_line, crlf) == Some(e@),
        },
{
    regex::RegexBuilder::new(pattern).case_insensitive(ignore_case).multi_line(multi_line).crlf(crlf).build().map(
        |re| TextRegex { re, pattern: pattern.to_string(), ignore_case, multi_line, crlf },
    ).map_err(|e| e.to_string())
}

/// The first match of a regex in a text, as byte offsets
/// (`regex::Regex::find`); named. The crate documents that start <= end
/// and that both offsets fall on character boundaries.
#[verifier::external_body]
fn regex_find(re: &TextRegex, hay: &str) -> (r: Option<(usize, usize)>)
    ensures
        r == regex_first(re.source(), re.case_insensitive(), re.multi_line(), re.crlf(), hay@),
        r matches Some((s, e)) ==> s <= e && is_char_boundary(hay@, s as int) && is_char_boundary(hay@, e as int),
{
    re.re.find(hay).map(|m| (m.start(), m.end()))
}

/// Every match of a regex in a text as byte offsets, in order
/// (`regex::Regex::find_iter`); named. The crate documents the matches as
/// successive and non-overlapping, each with start <= end on character
/// boundaries.
#[verifier::external_body]
pub(crate) fn regex_find_all(re: &TextRegex, hay: &str) -> (r: Vec<(usize, usize)>)
    ensures
        r@ == regex_spans(re.source(), re.case_insensitive(), re.multi_line(), re.crlf(), hay@),
        crate::grep::valid_spans(hay@, r@),
        forall|j: int| 0 <= j < r.len() - 1 ==> #[trigger] r[j].1 <= r[j + 1].0,
{
    re.re.find_iter(hay).map(|m| (m.start(), m.end())).collect()
}

/// Whether a regex matches somewhere in a text
/// (`regex::Regex::is_match`); named.
#[verifier::external_body]
pub(crate) fn regex_matches(re: &TextRegex, hay: &str) -> (r: bool)
    ensures
        r == regex_is_match(re.source(), re.case_insensitive(), re.multi_line(), re.crlf(), hay@),
{
    re.re.is_match(hay)
}

/// The number of characters that take `byte` bytes at the start of `s`.
pub open spec fn char_index_of(s: Seq<char>, byte: int) -> int {
    choose|k: int| 0 <= k <= s.len() && byte_len(#[trigger] s.take(k)) == byte
}

pub proof fn lemma_byte_len_take_mono(s: Seq<char>, a: int, b: int)
    requires
        0 <= a < b <= s.len(),
    ensures
        byte_len(s.take(a)) < byte_len(s.take(b)),
    decreases b - a,
{
    assert(s.take(b).drop_last() =~= s.take(b - 1));
    if b - 1 > a {
        lemma_byte_len_take_mono(s, a, b - 1);
    }
}

/// The character index of a character-boundary byte offset.
pub fn char_index_at(s: &[char], byte: usize) -> (r: usize)
    requires
        is_char_boundary(s@, byte as int),
    ensures
        r == char_index_of(s@, byte as int),
        r <= s@.len(),
        byte_len(s@.take(r as int)) == byte,
{
    let ghost k0 = choose|k: int| 0 <= k <= s@.len() && byte_len(#[trigger] s@.take(k)) == byte;
    let mut k: usize = 0;
    let mut b: u128 = 0;
    assert(s@.take(0) =~= Seq::<char>::empty());
    while b < byte as u128
        invariant
            k <= s@.len(),
            b == byte_len(s@.take(k as int)),
            0 <= k0 <= s@.len(),
            byte_len(s@.take(k0)) == byte,
            k <= k0,
        decreases s@.len() - k,
    {
        proof {
            if k == k0 {
                assert(false);
            }
            lemma_byte_len_bound(s@.take(k as int));
            assert(s@.take(k + 1).drop_last() =~= s@.take(k as int));
            if k + 1 < k0 {
                lemma_byte_len_take_mono(s@, k + 1, k0);
            }
        }
        let one = slice_chars(s, k, k + 1);
        proof {
            lemma_append_one(s@, k as int);
        }
        b = b + crate::read::byte_len_exec(one.as_slice());
        k += 1;
    }
    proof {
        if k < k0 {
            lemma_byte_len_take_mono(s@, k as int, k0);
        }
        assert(k == k0);
        // any two boundary indices with the same byte offset agree
        let c = char_index_of(s@, byte as int);
        if c < k0 {
            lemma_byte_len_take_mono(s@, c, k0);
        } else if c > k0 {
            lemma_byte_len_take_mono(s@, k0, c);
        }
    }
    k
}

proof fn lemma_append_one(s: Seq<char>, k: int)
    requires
        0 <= k < s.len(),
    ensures
        byte_len(s.take(k + 1)) == byte_len(s.take(k)) + byte_len(s.subrange(k, k + 1)),
{
    crate::read::lemma_byte_len_append(s.take(k), s.subrange(k, k + 1));
    assert(s.take(k) + s.subrange(k, k + 1) =~= s.take(k + 1));
}

pub open spec fn min_i(a: int, b: int) -> int {
    if a <= b { a } else { b }
}

/// The window of characters `[start, end)` shown of a line of `total`
/// characters, at most `max` wide: around the match (start `ms`, length
/// `ml`, in characters) when there is one, split evenly before and after
/// it and shifted to stay within the line; the start of the line
/// otherwise.
pub open spec fn match_window(total: int, max: int, m: Option<(int, int)>) -> (int, int) {
    match m {
        None => (0, min_i(max, total)),
        Some((ms, ml)) => {
            let me = ms + ml;
            if ml >= max {
                (ms, ms + max)
            } else {
                let extra = max - ml;
                let before0 = extra / 2;
                let after0 = extra - before0;
                let before1 = if ms < before0 { ms } else { before0 };
                let after1 = if ms < before0 { after0 + before0 - ms } else { after0 };
                if total - me < after1 {
                    let leftover = after1 - (total - me);
                    (ms - min_i(before1 + leftover, ms), me + (total - me))
                } else {
                    (ms - before1, me + after1)
                }
            }
        },
    }
}

/// The character window around a match (see `match_window`).
pub fn match_window_char_range(total_chars: usize, max_chars: usize, matched: Option<(usize, usize)>) -> (r: (usize, usize))
    requires
        matched matches Some((ms, ml)) ==> ms + ml <= total_chars,
        total_chars + max_chars <= usize::MAX,
    ensures
        (r.0 as int, r.1 as int) == match_window(total_chars as int, max_chars as int, match matched {
            Some((ms, ml)) => Some((ms as int, ml as int)),
            None => None,
        }),
{
    match matched {
        None => (0, if max_chars <= total_chars { max_chars } else { total_chars }),
        Some((match_start, match_len)) => {
            let match_end = match_start + match_len;
            if match_len >= max_chars {
                return (match_start, match_start + max_chars);
            }
            let extra = max_chars - match_len;
            let mut before = extra / 2;
            let mut after = extra - before;
            if match_start < before {
                after += before - match_start;
                before = match_start;
            }
            if total_chars - match_end < after {
                let leftover = after - (total_chars - match_end);
                after = total_chars - match_end;
                before = if before + leftover <= match_start { before + leftover } else { match_start };
            }
            (match_start - before, match_end + after)
        },
    }
}

/// `"…[{n} chars total, line continues]"`.
pub open spec fn continues_note(total: nat) -> Seq<char> {
    "…["@ + dec(total) + " chars total, line continues]"@
}

/// The preview of a matching line of `max` characters at most, given the
/// first match as character start and length: the line itself when it
/// fits; otherwise the window around the match, with `…` before it when
/// it does not start the line and a note of the line's length after it
/// when it does not end it.
pub open spec fn grep_preview(line: Seq<char>, max: nat, m: Option<(int, int)>) -> Seq<char> {
    let total = line.len();
    if max == 0 {
        continues_note(total)
    } else if total <= max {
        line
    } else {
        let (ws, we) = match_window(total as int, max as int, m);
        (if ws > 0 { seq!['…'] } else { Seq::empty() }) + line.subrange(ws, we) + if we < total {
            " …["@ + dec(total) + " chars total, line continues]"@
        } else {
            Seq::empty()
        }
    }
}

/// The match as character start and length, from byte offsets.
pub open spec fn char_match(line: Seq<char>, found: Option<(usize, usize)>) -> Option<(int, int)> {
    match found {
        Some((s, e)) => Some((char_index_of(line, s as int), char_index_of(line, e as int) - char_index_of(line, s as int))),
        None => None,
    }
}

/// The found match is a pair of character boundaries in order.
pub open spec fn valid_match(line: Seq<char>, found: Option<(usize, usize)>) -> bool {
    found matches Some((s, e)) ==> s <= e && is_char_boundary(line, s as int) && is_char_boundary(line, e as int)
}

/// Preview a matching line, given where the regex's first match lies
/// (byte offsets, as `Regex::find` reports them).
pub fn grep_preview_for_match(line: &str, max_chars: usize, found: Option<(usize, usize)>) -> (r: String)
    requires
        valid_match(line@, found),
        line@.len() + max_chars <= usize::MAX,
    ensures
        r@ == grep_preview(line@, max_chars as nat, char_match(line@, found)),
{
    let cs = chars_of(line);
    let total = cs.len();
    let mut out: Vec<char> = Vec::new();
    if max_chars == 0 {
        push_str(&mut out, "…[");
        push_dec(&mut out, total as u64);
        push_str(&mut out, " chars total, line continues]");
        assert(out@ =~= grep_preview(line@, max_chars as nat, char_match(line@, found)));
        return string_from_chars(out.as_slice());
    }
    if total <= max_chars {
        return string_from_chars(cs.as_slice());
    }
    let m: Option<(usize, usize)> = match found {
        Some((s, e)) => {
            let a = char_index_at(cs.as_slice(), s);
            let b = char_index_at(cs.as_slice(), e);
            if b < a {
                proof {
                    lemma_byte_len_take_mono(cs@, b as int, a as int);
                }
            }
            Some((a, b - a))
        },
        None => None,
    };
    let (ws, we) = match_window_char_range(total, max_chars, m);
    assert(m == match char_match(line@, found) {
        Some((a, l)) => Some((a as usize, l as usize)),
        None => None::<(usize, usize)>,
    });
    assert(ws <= we <= total);
    if ws > 0 {
        out.push('…');
    }
    let window = slice_chars(cs.as_slice(), ws, we);
    push_chars(&mut out, window.as_slice());
    if we < total {
        push_str(&mut out, " …[");
        push_dec(&mut out, total as u64);
        push_str(&mut out, " chars total, line continues]");
    }
    assert(out@ =~= grep_preview(line@, max_chars as nat, char_match(line@, found)));
    string_from_chars(out.as_slice())
}

/// Preview a matching line of at most `max_chars` characters, centred on
/// the regex's first match (see `grep_preview`). A line that fits is
/// returned as it is; for a longer line the preview is the one for the
/// match the regex reports.
pub fn preview_grep_match_line_with_limit(line: &str, regex: &TextRegex, max_chars: usize) -> (r: String)
    requires
        line@.len() + max_chars <= usize::MAX,
    ensures
        line@.len() <= max_chars && max_chars > 0 ==> r@ == line@,
        r@ == grep_preview(line@, max_chars as nat, char_match(line@, first_match_of(*regex, line@))),
{
    let total = chars_of(line).len();
    if max_chars == 0 || total <= max_chars {
        let r = grep_preview_for_match(line, max_chars, None);
        assert(valid_match(line@, None));
        return r;
    }
    let found = regex_find(regex, line);
    grep_preview_for_match(line, max_chars, found)
}

/// Preview a matching line within the default cap.
pub fn preview_grep_match_line(line: &str, regex: &TextRegex) -> (r: String)
    requires
        line@.len() + MAX_GREP_MATCH_LINE_CHARS <= usize::MAX,
    ensures
        line@.len() <= MAX_GREP_MATCH_LINE_CHARS ==> r@ == line@,
        r@ == grep_preview(line@, MAX_GREP_MATCH_LINE_CHARS as nat, char_match(line@, first_match_of(*regex, line@))),
{
    preview_grep_match_line_with_limit(line, regex, MAX_GREP_MATCH_LINE_CHARS)
}

} // verus!
