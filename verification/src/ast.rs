//! Structural (syntax tree) search: which captured nodes count as matches
//! and how they become `(file, line, source line)` results.

use vstd::prelude::*;

use crate::matcher::{build_glob, filter_view, glob_error, glob_view, passes_glob, path_passes};
use crate::text::{contains_seq, push_char, str_contains, str_eq};

verus! {

/// Type of AST query to perform.
#[derive(Clone, Copy, Debug, PartialEq, Eq)]
pub enum AstQueryType {
    Function,
    Class,
    Import,
}

/// Whether a captured node's text is a match: imports match when they
/// mention the target, functions and classes when they are named exactly so.
pub open spec fn capture_matches_spec(query_type: AstQueryType, text: Seq<char>, target: Seq<char>) -> bool {
    match query_type {
        AstQueryType::Import => contains_seq(text, target),
        _ => text == target,
    }
}

/// Which captures match: for function and class queries exactly those whose
/// text equals the target; for import queries those whose text contains
/// the target as a contiguous run of characters (so every import matches
/// an empty target).
pub proof fn captures_match_by_name_or_mention(text: Seq<char>, target: Seq<char>)
    ensures
        capture_matches_spec(AstQueryType::Function, text, target) == (text == target),
        capture_matches_spec(AstQueryType::Class, text, target) == (text == target),
        capture_matches_spec(AstQueryType::Import, text, target) == (exists|i: int|
            0 <= i && i + target.len() <= text.len() && #[trigger] text.subrange(i, i + target.len())
                == target),
        target.len() == 0 ==> capture_matches_spec(AstQueryType::Import, text, target),
{
    if target.len() == 0 {
        assert(text.subrange(0int, 0int + target.len()) =~= target);
        assert(contains_seq(text, target));
    }
}

/// Decides whether a captured node's text matches the target name.
pub fn capture_matches(query_type: AstQueryType, text: &str, target: &str) -> (r: bool)
    ensures
        r == capture_matches_spec(query_type, text@, target@),
{
    match query_type {
        AstQueryType::Import => str_contains(text, target),
        _ => str_eq(text, target),
    }
}

/// The pieces of `s` between line feeds (one more than there are line feeds).
pub open spec fn segments(s: Seq<char>) -> Seq<Seq<char>>
    decreases s.len(),
{
    if s.len() == 0 {
        seq![Seq::empty()]
    } else {
        let prev = segments(s.drop_last());
        if s.last() == '\n' {
            prev.push(Seq::empty())
        } else {
            prev.update(prev.len() - 1, prev.last().push(s.last()))
        }
    }
}

proof fn lemma_segments_nonempty(s: Seq<char>)
    ensures
        segments(s).len() >= 1,
    decreases s.len(),
{
    if s.len() > 0 {
        lemma_segments_nonempty(s.drop_last());
    }
}

/// Line `row` of `source` (counting from zero) as `str::lines` yields it:
/// without its line feed, and without a carriage return right before that
/// line feed; empty when there is no such line.
pub open spec fn line_at_spec(source: Seq<char>, row: nat) -> Seq<char> {
    let segs = segments(source);
    if row < segs.len() {
        let seg = segs[row as int];
        if row + 1 < segs.len() && seg.len() > 0 && seg.last() == '\r' {
            seg.drop_last()
        } else {
            seg
        }
    } else {
        Seq::empty()
    }
}

/// Returns line `row` (from zero) of `source`, or an empty string when the
/// source has fewer lines.
pub fn line_at(source: &str, row: usize) -> (r: String)
    ensures
        r@ == line_at_spec(source@, row as nat),
{
    let mut cur: usize = 0;
    let mut buf = String::new();
    let mut buf_len: usize = 0;
    let n = source.unicode_len();
    let mut seen: usize = 0;
    for x in it: source.chars()
        invariant
            it.seq() == source@,
            n == source@.len(),
            seen == it.index(),
            segments(source@.take(it.index() as int)).len() == cur + 1,
            buf_len == buf@.len(),
            buf_len <= seen,
            buf@ == if row <= cur {
                segments(source@.take(it.index() as int))[row as int]
            } else {
                Seq::empty()
            },
            cur <= seen,
    {
        let ghost k = it.index() as int;
        assert(x == source@[k]);
        assert(source@.take(k + 1).drop_last() == source@.take(k));
        assert(source@.take(k + 1).last() == x);
        proof { lemma_segments_nonempty(source@.take(k)); }
        seen = seen + 1;
        if x == '\n' {
            cur = cur + 1;
        } else if cur == row {
            push_char(&mut buf, x);
            buf_len = buf_len + 1;
        }
    }
    assert(source@.take(source@.len() as int) == source@);
    if row < cur && buf_len > 0 && buf.as_str().get_char(buf_len - 1) == '\r' {
        buf.as_str().substring_char(0, buf_len - 1).to_string()
    } else {
        buf
    }
}

/// One captured syntax node: its text and the zero-based row where it starts.
pub struct AstCapture {
    pub text: String,
    pub row: usize,
}

/// A result `(file, line, source line)` as a value.
pub type AstHitView = (Seq<char>, usize, Seq<char>);

/// The value of a result triple.
pub open spec fn ast_hit_view(h: (String, usize, String)) -> AstHitView {
    (h.0@, h.1, h.2@)
}

/// The values of a list of result triples.
pub open spec fn ast_hits_view(hits: Seq<(String, usize, String)>) -> Seq<AstHitView> {
    hits.map_values(|h: (String, usize, String)| ast_hit_view(h))
}

/// `results` after recording the matching captures of one file, in order;
/// a result already present is not added again.
pub open spec fn record_captures(
    results: Seq<AstHitView>,
    path: Seq<char>,
    source: Seq<char>,
    captures: Seq<AstCapture>,
    target: Seq<char>,
    query_type: AstQueryType,
) -> Seq<AstHitView>
    decreases captures.len(),
{
    if captures.len() == 0 {
        results
    } else {
        let prev = record_captures(results, path, source, captures.drop_last(), target, query_type);
        let c = captures.last();
        if capture_matches_spec(query_type, c.text@, target) {
            let item = (path, (c.row + 1) as usize, line_at_spec(source, c.row as nat));
            if prev.contains(item) {
                prev
            } else {
                prev.push(item)
            }
        } else {
            prev
        }
    }
}

fn contains_hit(results: &Vec<(String, usize, String)>, file: &str, line: usize, content: &str) -> (r: bool)
    ensures
        r == ast_hits_view(results@).contains((file@, line, content@)),
{
    let mut i: usize = 0;
    while i < results.len()
        invariant
            i <= results@.len(),
            forall|j: int| 0 <= j < i ==> ast_hit_view(#[trigger] results@[j]) != (file@, line, content@),
        decreases results@.len() - i,
    {
        if str_eq(results[i].0.as_str(), file) && results[i].1 == line && str_eq(
            results[i].2.as_str(),
            content,
        ) {
            assert(ast_hits_view(results@)[i as int] == (file@, line, content@));
            return true;
        }
        i = i + 1;
    }
    assert forall|j: int| 0 <= j < ast_hits_view(results@).len() implies #[trigger] ast_hits_view(
        results@,
    )[j] != (file@, line, content@) by {
        assert(ast_hits_view(results@)[j] == ast_hit_view(results@[j]));
    }
    false
}

/// Records the matching captures of one file: each capture whose text
/// matches the target adds `(path, row + 1, source line)` unless that result
/// is already present.
pub fn record_file_captures(
    results: &mut Vec<(String, usize, String)>,
    path: &str,
    source: &str,
    captures: &[AstCapture],
    target: &str,
    query_type: AstQueryType,
)
    requires
        forall|i: int| 0 <= i < captures@.len() ==> (#[trigger] captures@[i]).row < usize::MAX,
    ensures
        ast_hits_view(final(results)@) == record_captures(
            ast_hits_view(old(results)@),
            path@,
            source@,
            captures@,
            target@,
            query_type,
        ),
{
    let ghost start = ast_hits_view(results@);
    for i in 0..captures.len()
        invariant
            forall|i: int| 0 <= i < captures@.len() ==> (#[trigger] captures@[i]).row < usize::MAX,
            ast_hits_view(results@) == record_captures(
                start,
                path@,
                source@,
                captures@.take(i as int),
                target@,
                query_type,
            ),
    {
        assert(captures@.take(i + 1).drop_last() == captures@.take(i as int));
        assert(captures@.take(i + 1).last() == captures@[i as int]);
        let c = &captures[i];
        if capture_matches(query_type, c.text.as_str(), target) {
            let line = line_at(source, c.row);
            let row = c.row + 1;
            if !contains_hit(results, path, row, line.as_str()) {
                let ghost before = results@;
                results.push((path.to_string(), row, line));
                assert(ast_hits_view(results@) =~= ast_hits_view(before).push(
                    (path@, row, line_at_spec(source@, c.row as nat)),
                ));
            }
        }
    }
    assert(captures@.take(captures@.len() as int) == captures@);
}

/// Every result that the matching captures of one file give, in order,
/// repeats included.
pub open spec fn capture_items(
    path: Seq<char>,
    source: Seq<char>,
    captures: Seq<AstCapture>,
    target: Seq<char>,
    query_type: AstQueryType,
) -> Seq<AstHitView>
    decreases captures.len(),
{
    if captures.len() == 0 {
        Seq::empty()
    } else {
        let prev = capture_items(path, source, captures.drop_last(), target, query_type);
        let c = captures.last();
        if capture_matches_spec(query_type, c.text@, target) {
            prev.push((path, (c.row + 1) as usize, line_at_spec(source, c.row as nat)))
        } else {
            prev
        }
    }
}

/// The results of one file's matching captures, in capture order and
/// without removing repeats, as a stream hands them out.
pub fn capture_hits(
    path: &str,
    source: &str,
    captures: &[AstCapture],
    target: &str,
    query_type: AstQueryType,
) -> (r: Vec<(String, usize, String)>)
    requires
        forall|i: int| 0 <= i < captures@.len() ==> (#[trigger] captures@[i]).row < usize::MAX,
    ensures
        ast_hits_view(r@) == capture_items(path@, source@, captures@, target@, query_type),
{
    let mut out: Vec<(String, usize, String)> = Vec::new();
    for i in 0..captures.len()
        invariant
            forall|i: int| 0 <= i < captures@.len() ==> (#[trigger] captures@[i]).row < usize::MAX,
            ast_hits_view(out@) == capture_items(
                path@,
                source@,
                captures@.take(i as int),
                target@,
                query_type,
            ),
    {
        assert(captures@.take(i + 1).drop_last() == captures@.take(i as int));
        assert(captures@.take(i + 1).last() == captures@[i as int]);
        let c = &captures[i];
        if capture_matches(query_type, c.text.as_str(), target) {
            let line = line_at(source, c.row);
            let row = c.row + 1;
            let ghost before = out@;
            out.push((path.to_string(), row, line));
            assert(ast_hits_view(out@) =~= ast_hits_view(before).push(
                (path@, row, line_at_spec(source@, c.row as nat)),
            ));
        }
    }
    assert(captures@.take(captures@.len() as int) == captures@);
    out
}

/// One source file of a structural search: its path, its text, and the
/// nodes that the language's query captured in it.
pub struct AstFile {
    pub path: String,
    pub source: String,
    pub captures: Vec<AstCapture>,
}

/// The results of a structural search over the files, file by file.
pub open spec fn ast_results(
    files: Seq<AstFile>,
    glob: Option<Seq<char>>,
    target: Seq<char>,
    query_type: AstQueryType,
) -> Seq<AstHitView>
    decreases files.len(),
{
    if files.len() == 0 {
        Seq::empty()
    } else {
        let prev = ast_results(files.drop_last(), glob, target, query_type);
        let f = files.last();
        if passes_glob(glob, f.path@) {
            record_captures(prev, f.path@, f.source@, f.captures@, target, query_type)
        } else {
            prev
        }
    }
}

/// Recording captures never introduces a duplicate: when the results had
/// none before, they have none after.
pub proof fn recording_keeps_results_distinct(
    results: Seq<AstHitView>,
    path: Seq<char>,
    source: Seq<char>,
    captures: Seq<AstCapture>,
    target: Seq<char>,
    query_type: AstQueryType,
)
    requires
        results.no_duplicates(),
    ensures
        record_captures(results, path, source, captures, target, query_type).no_duplicates(),
    decreases captures.len(),
{
    if captures.len() > 0 {
        recording_keeps_results_distinct(results, path, source, captures.drop_last(), target, query_type);
    }
}

/// A structural search never reports the same result twice.
pub proof fn ast_results_are_distinct(
    files: Seq<AstFile>,
    glob: Option<Seq<char>>,
    target: Seq<char>,
    query_type: AstQueryType,
)
    ensures
        ast_results(files, glob, target, query_type).no_duplicates(),
    decreases files.len(),
{
    if files.len() > 0 {
        ast_results_are_distinct(files.drop_last(), glob, target, query_type);
        let f = files.last();
        recording_keeps_results_distinct(
            ast_results(files.drop_last(), glob, target, query_type),
            f.path@,
            f.source@,
            f.captures@,
            target,
            query_type,
        );
    }
}

/// Every result that the searched files' matching captures give, file by
/// file, repeats included: what a streaming structural search hands out.
pub open spec fn streamed_items(
    files: Seq<AstFile>,
    glob: Option<Seq<char>>,
    target: Seq<char>,
    query_type: AstQueryType,
) -> Seq<AstHitView>
    decreases files.len(),
{
    if files.len() == 0 {
        Seq::empty()
    } else {
        let prev = streamed_items(files.drop_last(), glob, target, query_type);
        let f = files.last();
        if passes_glob(glob, f.path@) {
            prev + capture_items(f.path@, f.source@, f.captures@, target, query_type)
        } else {
            prev
        }
    }
}

proof fn lemma_concat_contains(a: Seq<AstHitView>, b: Seq<AstHitView>, x: AstHitView)
    ensures
        (a + b).contains(x) <==> (a.contains(x) || b.contains(x)),
{
    if (a + b).contains(x) {
        let i = choose|i: int| 0 <= i < (a + b).len() && (a + b)[i] == x;
        if i < a.len() {
            assert(a[i] == x);
        } else {
            assert(b[i - a.len()] == x);
        }
    }
    if a.contains(x) {
        let i = choose|i: int| 0 <= i < a.len() && a[i] == x;
        assert((a + b)[i] == x);
    }
    if b.contains(x) {
        let i = choose|i: int| 0 <= i < b.len() && b[i] == x;
        assert((a + b)[a.len() + i] == x);
    }
}

proof fn lemma_push_contains(a: Seq<AstHitView>, y: AstHitView, x: AstHitView)
    ensures
        a.push(y).contains(x) <==> (a.contains(x) || x == y),
{
    assert(a.push(y) =~= a + seq![y]);
    lemma_concat_contains(a, seq![y], x);
    if seq![y].contains(x) {
        let i = choose|i: int| 0 <= i < 1 && seq![y][i] == x;
    }
    if x == y {
        assert(seq![y][0] == x);
    }
}

/// Recording captures adds exactly the results that the captures give:
/// something is among the recorded results when it was there before or a
/// matching capture gives it.
pub proof fn recorded_results_are_old_or_captured(
    results: Seq<AstHitView>,
    path: Seq<char>,
    source: Seq<char>,
    captures: Seq<AstCapture>,
    target: Seq<char>,
    query_type: AstQueryType,
    x: AstHitView,
)
    ensures
        record_captures(results, path, source, captures, target, query_type).contains(x) <==> (
        results.contains(x) || capture_items(path, source, captures, target, query_type).contains(x)),
    decreases captures.len(),
{
    if captures.len() > 0 {
        let init = captures.drop_last();
        recorded_results_are_old_or_captured(results, path, source, init, target, query_type, x);
        let prev = record_captures(results, path, source, init, target, query_type);
        let items = capture_items(path, source, init, target, query_type);
        let c = captures.last();
        if capture_matches_spec(query_type, c.text@, target) {
            let item = (path, (c.row + 1) as usize, line_at_spec(source, c.row as nat));
            lemma_push_contains(items, item, x);
            if !prev.contains(item) {
                lemma_push_contains(prev, item, x);
            }
        }
    }
}

/// A streaming structural search hands out the same set of results as the
/// batch search over the same files: every streamed item is a batch result
/// and every batch result is streamed (the stream may repeat an item).
pub proof fn streamed_items_are_batch_results(
    files: Seq<AstFile>,
    glob: Option<Seq<char>>,
    target: Seq<char>,
    query_type: AstQueryType,
    x: AstHitView,
)
    ensures
        streamed_items(files, glob, target, query_type).contains(x) <==> ast_results(
            files,
            glob,
            target,
            query_type,
        ).contains(x),
    decreases files.len(),
{
    if files.len() > 0 {
        let init = files.drop_last();
        streamed_items_are_batch_results(init, glob, target, query_type, x);
        let f = files.last();
        if passes_glob(glob, f.path@) {
            lemma_concat_contains(
                streamed_items(init, glob, target, query_type),
                capture_items(f.path@, f.source@, f.captures@, target, query_type),
                x,
            );
            recorded_results_are_old_or_captured(
                ast_results(init, glob, target, query_type),
                f.path@,
                f.source@,
                f.captures@,
                target,
                query_type,
                x,
            );
        }
    }
}

/// Search for AST nodes by name over the parsed files found under the root:
/// files that the glob rejects are skipped; results come without duplicates.
pub fn search_ast(target: &str, glob: &Option<String>, query_type: AstQueryType, files: &[AstFile]) -> (r: Result<
    Vec<(String, usize, String)>,
    String,
>)
    requires
        forall|i: int, j: int|
            0 <= i < files@.len() && 0 <= j < files@[i].captures@.len() ==> (
            #[trigger] files@[i].captures@[j]).row < usize::MAX,
    ensures
        r is Ok <==> glob_error(glob_view(*glob)) is None,
        r matches Err(e) ==> glob_error(glob_view(*glob)) == Some(e@),
        r matches Ok(hits) ==> ast_hits_view(hits@) == ast_results(
            files@,
            glob_view(*glob),
            target@,
            query_type,
        ),
{
    let filter = build_glob(glob)?;
    let mut results: Vec<(String, usize, String)> = Vec::new();
    for i in 0..files.len()
        invariant
            forall|i: int, j: int|
                0 <= i < files@.len() && 0 <= j < files@[i].captures@.len() ==> (
                #[trigger] files@[i].captures@[j]).row < usize::MAX,
            filter_view(filter) == glob_view(*glob),
            ast_hits_view(results@) == ast_results(
                files@.take(i as int),
                glob_view(*glob),
                target@,
                query_type,
            ),
    {
        assert(files@.take(i + 1).drop_last() == files@.take(i as int));
        assert(files@.take(i + 1).last() == files@[i as int]);
        if path_passes(&filter, files[i].path.as_str()) {
            record_file_captures(
                &mut results,
                files[i].path.as_str(),
                files[i].source.as_str(),
                files[i].captures.as_slice(),
                target,
                query_type,
            );
        }
    }
    assert(files@.take(files@.len() as int) == files@);
    Ok(results)
}

} // verus!
