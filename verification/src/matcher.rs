//! The regex line matcher and the glob path filter, both compiled by the
//! outside crates `grep` and `globset`.

use vstd::prelude::*;

use globset::{Glob, GlobSet, GlobSetBuilder};
use grep::regex::{RegexMatcher, RegexMatcherBuilder};
use grep::searcher::sinks::UTF8;
use grep::searcher::SearcherBuilder;

verus! {

#[verifier::external_type_specification]
#[verifier::external_body]
pub struct ExRegexMatcher(grep::regex::RegexMatcher);

#[verifier::external_type_specification]
#[verifier::external_body]
pub struct ExGlobSet(globset::GlobSet);

/// The error message with which `grep_regex` refuses to compile `pattern`
/// under the given options, or `None` when it compiles.
pub uninterp spec fn regex_build_error(
    pattern: Seq<char>,
    ignore_case: bool,
    fixed_strings: bool,
) -> Option<Seq<char>>;

/// Calls `RegexMatcherBuilder::build` after setting `case_insensitive` and
/// `fixed_strings`. Claimed: the call succeeds exactly when
/// `regex_build_error` is `None`, and an error comes back as that message.
#[verifier::external_body]
fn compile_regex(pattern: &str, ignore_case: bool, fixed_strings: bool) -> (r: Result<
    RegexMatcher,
    String,
>)
    ensures
        r is Ok <==> regex_build_error(pattern@, ignore_case, fixed_strings) is None,
        r matches Err(e) ==> regex_build_error(pattern@, ignore_case, fixed_strings) == Some(
            e@,
        ),
{
    RegexMatcherBuilder::new()
        .case_insensitive(ignore_case)
        .fixed_strings(fixed_strings)
        .build(pattern)
        .map_err(|e| e.to_string())
}

/// A compiled line matcher together with the pattern and options it was
/// compiled from.
pub struct LineMatcher {
    pattern: String,
    ignore_case: bool,
    fixed_strings: bool,
    regex: RegexMatcher,
}

impl LineMatcher {
    /// The pattern this matcher was compiled from.
    pub closed spec fn pattern_view(&self) -> Seq<char> {
        self.pattern@
    }

    /// Whether the matcher ignores case.
    pub closed spec fn ignores_case(&self) -> bool {
        self.ignore_case
    }

    /// Whether the pattern is taken literally.
    pub closed spec fn is_fixed(&self) -> bool {
        self.fixed_strings
    }

    /// The regex compiled from this matcher's pattern and options.
    pub closed spec fn compiled_regex(&self) -> RegexMatcher {
        self.regex
    }

    /// The compiled regex, for searches that need their own sink.
    pub fn regex(&self) -> (r: &RegexMatcher)
        ensures
            *r == self.compiled_regex(),
    {
        &self.regex
    }
}

/// Builds a regex matcher from a pattern string.
pub fn build_matcher(pattern: &str, ignore_case: bool, fixed_strings: bool) -> (r: Result<
    LineMatcher,
    String,
>)
    ensures
        r is Ok <==> regex_build_error(pattern@, ignore_case, fixed_strings) is None,
        r matches Err(e) ==> regex_build_error(pattern@, ignore_case, fixed_strings) == Some(
            e@,
        ),
        r matches Ok(m) ==> m.pattern_view() == pattern@ && m.ignores_case() == ignore_case
            && m.is_fixed() == fixed_strings,
{
    match compile_regex(pattern, ignore_case, fixed_strings) {
        Ok(regex) => Ok(
            LineMatcher { pattern: pattern.to_string(), ignore_case, fixed_strings, regex },
        ),
        Err(e) => Err(e),
    }
}

/// The matching lines that a default `grep_searcher` search of `haystack`
/// hands to a `UTF8` sink, each as its line number and text (line
/// terminator included); the search ends at the first matching line that is
/// not valid UTF-8.
pub uninterp spec fn matched_lines(
    pattern: Seq<char>,
    ignore_case: bool,
    fixed_strings: bool,
    haystack: Seq<u8>,
) -> Seq<(u64, Seq<char>)>;

/// Records one matching line; the search goes on.
fn record_line(lines: &mut Vec<(u64, String)>, line_number: u64, text: &str) -> (r: bool)
    ensures
        r,
        final(lines).deep_view() == old(lines).deep_view().push((line_number, text@)),
{
    lines.push((line_number, text.to_string()));
    true
}

/// Calls `Searcher::search_slice` (default `SearcherBuilder` settings) with
/// the compiled regex and a `UTF8` sink that records every matching line.
/// Claimed: what it records is `matched_lines` of the matcher's pattern,
/// options and the haystack; the line numbers strictly increase, the first
/// line being line 1, and none exceeds the haystack's length in bytes (the
/// searcher counts from 1, adds the line terminators it passes, reports each
/// matching line once, never an empty one, and moves past it before looking
/// again).
#[verifier::external_body]
pub(crate) fn search_lines(m: &LineMatcher, haystack: &[u8]) -> (r: Vec<(u64, String)>)
    ensures
        r.deep_view() == matched_lines(m.pattern_view(), m.ignores_case(), m.is_fixed(), haystack@),
        forall|i: int, j: int| 0 <= i < j < r@.len() ==> r@[i].0 < r@[j].0,
        forall|i: int| 0 <= i < r@.len() ==> 1 <= #[trigger] r@[i].0 <= haystack@.len(),
{
    let mut lines: Vec<(u64, String)> = Vec::new();
    let mut searcher = SearcherBuilder::new().build();
    let _ = searcher.search_slice(
        &m.regex,
        haystack,
        UTF8(|lnum, line| Ok(record_line(&mut lines, lnum, line))),
    );
    lines
}

/// The error message with which `globset` refuses to build a glob set from
/// the single glob `pattern`, or `None` when it builds.
pub uninterp spec fn glob_build_error(pattern: Seq<char>) -> Option<Seq<char>>;

/// Calls `Glob::new`, then adds the glob to a `GlobSetBuilder` and calls
/// `GlobSetBuilder::build`. Claimed: it succeeds exactly when
/// `glob_build_error` is `None`, and an error comes back as that message.
#[verifier::external_body]
fn compile_glob_set(pattern: &str) -> (r: Result<GlobSet, String>)
    ensures
        r is Ok <==> glob_build_error(pattern@) is None,
        r matches Err(e) ==> glob_build_error(pattern@) == Some(e@),
{
    let glob = Glob::new(pattern).map_err(|e| e.to_string())?;
    let mut builder = GlobSetBuilder::new();
    builder.add(glob);
    builder.build().map_err(|e| e.to_string())
}

/// A compiled glob set together with the one glob it was built from.
pub struct GlobFilter {
    pattern: String,
    set: GlobSet,
}

impl GlobFilter {
    /// The glob this filter was built from.
    pub closed spec fn pattern_view(&self) -> Seq<char> {
        self.pattern@
    }
}

/// Whether the glob set built from `pattern` matches `path`.
pub uninterp spec fn glob_matches(pattern: Seq<char>, path: Seq<char>) -> bool;

/// Calls `GlobSet::is_match` on the filter's set. Claimed: the answer is
/// `glob_matches` of the glob the set was built from and the path (a
/// `GlobFilter` is only made by `build_glob`, from its own pattern).
#[verifier::external_body]
fn glob_set_is_match(filter: &GlobFilter, path: &str) -> (r: bool)
    ensures
        r == glob_matches(filter.pattern_view(), path@),
{
    filter.set.is_match(path)
}

/// The glob of an optional glob string, as a value.
pub open spec fn glob_view(glob: Option<String>) -> Option<Seq<char>> {
    match glob {
        Some(g) => Some(g@),
        None => None,
    }
}

/// The error that building the optional glob gives, if any.
pub open spec fn glob_error(glob: Option<Seq<char>>) -> Option<Seq<char>> {
    match glob {
        Some(g) => glob_build_error(g),
        None => None,
    }
}

/// Builds a glob filter from an optional glob string: no glob gives no
/// filter.
pub fn build_glob(glob: &Option<String>) -> (r: Result<Option<GlobFilter>, String>)
    ensures
        r is Ok <==> glob_error(glob_view(*glob)) is None,
        r matches Err(e) ==> glob_error(glob_view(*glob)) == Some(e@),
        r matches Ok(f) ==> filter_view(f) == glob_view(*glob),
{
    match glob {
        Some(g) => match compile_glob_set(g.as_str()) {
            Ok(set) => Ok(Some(GlobFilter { pattern: g.clone(), set })),
            Err(e) => Err(e),
        },
        None => Ok(None),
    }
}

/// The glob an optional filter was built from.
pub open spec fn filter_view(filter: Option<GlobFilter>) -> Option<Seq<char>> {
    match filter {
        Some(f) => Some(f.pattern_view()),
        None => None,
    }
}

/// Whether a path passes an optional glob: every path passes when there is
/// no glob.
pub open spec fn passes_glob(glob: Option<Seq<char>>, path: Seq<char>) -> bool {
    match glob {
        Some(g) => glob_matches(g, path),
        None => true,
    }
}

/// Whether `path` passes the optional filter.
pub fn path_passes(filter: &Option<GlobFilter>, path: &str) -> (r: bool)
    ensures
        r == passes_glob(filter_view(*filter), path@),
{
    match filter {
        Some(f) => glob_set_is_match(f, path),
        None => true,
    }
}

} // verus!
