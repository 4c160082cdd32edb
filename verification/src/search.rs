//! Line search over the files found under a root: plain hits, per-file
//! counts and the list of files with a match.

use vstd::prelude::*;

use crate::matcher::{
    build_glob, build_matcher, filter_view, glob_error, glob_view, matched_lines, passes_glob,
    path_passes, regex_build_error, search_lines, GlobFilter, LineMatcher,
};
use crate::{hits_view, SearchConfig, SearchHit, SearchHitView};

verus! {

/// One entry met while walking the root directory.
pub struct WalkEntry {
    pub path: String,
    pub is_file: bool,
}

/// A file to search: its path and its bytes (`None` when it could not be read).
pub struct SourceFile {
    pub path: String,
    pub bytes: Option<Vec<u8>>,
}

/// The bytes of an optional buffer, as a value.
pub open spec fn bytes_view(bytes: Option<Vec<u8>>) -> Option<Seq<u8>> {
    match bytes {
        Some(b) => Some(b@),
        None => None,
    }
}

/// The paths of the walked entries that are files and pass the glob, in walk order.
pub open spec fn kept_paths(glob: Option<Seq<char>>, entries: Seq<WalkEntry>) -> Seq<Seq<char>>
    decreases entries.len(),
{
    if entries.len() == 0 {
        Seq::empty()
    } else {
        let e = entries.last();
        let rest = kept_paths(glob, entries.drop_last());
        if e.is_file && passes_glob(glob, e.path@) {
            rest.push(e.path@)
        } else {
            rest
        }
    }
}

/// Whether a walked entry is searched: it is a file and the optional glob
/// filter accepts its path.
pub fn keeps_entry(entry: &WalkEntry, glob: &Option<GlobFilter>) -> (r: bool)
    ensures
        r == (entry.is_file && passes_glob(filter_view(*glob), entry.path@)),
{
    entry.is_file && path_passes(glob, entry.path.as_str())
}

/// Collects the paths of the walked entries that are files and that the
/// optional glob filter accepts.
pub fn collect_paths(entries: &[WalkEntry], glob: &Option<GlobFilter>) -> (r: Vec<String>)
    ensures
        r.deep_view() == kept_paths(filter_view(*glob), entries@),
{
    let mut paths: Vec<String> = Vec::new();
    for i in 0..entries.len()
        invariant
            paths.deep_view() == kept_paths(filter_view(*glob), entries@.take(i as int)),
    {
        assert(entries@.take(i + 1).drop_last() == entries@.take(i as int));
        assert(entries@.take(i + 1).last() == entries@[i as int]);
        if keeps_entry(&entries[i], glob) {
            paths.push(entries[i].path.clone());
        }
    }
    assert(entries@.take(entries@.len() as int) == entries@);
    paths
}

/// The hits that matched lines give in the file `path`.
pub open spec fn lines_to_hits(path: Seq<char>, lines: Seq<(u64, Seq<char>)>) -> Seq<SearchHitView> {
    lines.map_values(
        |l: (u64, Seq<char>)|
            SearchHitView { file: path, line: l.0 as usize, byte_offset: None, content: l.1 },
    )
}

/// The matching lines of a file: none when it could not be read or is empty.
pub open spec fn file_lines(
    pattern: Seq<char>,
    ignore_case: bool,
    fixed_strings: bool,
    bytes: Option<Seq<u8>>,
) -> Seq<(u64, Seq<char>)> {
    match bytes {
        Some(b) => if b.len() == 0 {
            Seq::empty()
        } else {
            matched_lines(pattern, ignore_case, fixed_strings, b)
        },
        None => Seq::empty(),
    }
}

/// The hits of one file.
pub open spec fn file_hits(
    pattern: Seq<char>,
    ignore_case: bool,
    fixed_strings: bool,
    path: Seq<char>,
    bytes: Option<Seq<u8>>,
) -> Seq<SearchHitView> {
    lines_to_hits(path, file_lines(pattern, ignore_case, fixed_strings, bytes))
}

/// The hits of one file, under a matcher.
pub open spec fn matcher_file_hits(m: LineMatcher, path: Seq<char>, bytes: Option<Seq<u8>>) -> Seq<
    SearchHitView,
> {
    file_hits(m.pattern_view(), m.ignores_case(), m.is_fixed(), path, bytes)
}

/// Turns the matching lines of the file `path` into hits, in order.
pub fn hits_from_lines(path: &str, lines: &Vec<(u64, String)>) -> (r: Vec<SearchHit>)
    ensures
        hits_view(r@) == lines_to_hits(path@, lines.deep_view()),
{
    let mut hits: Vec<SearchHit> = Vec::new();
    for i in 0..lines.len()
        invariant
            hits@.len() == i,
            hits_view(hits@) =~= lines_to_hits(path@, lines.deep_view().take(i as int)),
    {
        assert(lines.deep_view()[i as int] == (lines@[i as int].0, lines@[i as int].1@));
        let hit = SearchHit {
            file: path.to_string(),
            line: lines[i].0 as usize,
            byte_offset: None,
            content: lines[i].1.clone(),
        };
        assert(hit@ == lines_to_hits(path@, lines.deep_view())[i as int]);
        let ghost before = hits@;
        hits.push(hit);
        assert forall|j: int| 0 <= j < i + 1 implies #[trigger] hits_view(hits@)[j]
            == lines_to_hits(path@, lines.deep_view().take(i + 1))[j] by {
            if j < i {
                assert(hits@[j] == before[j]);
                assert(hits_view(before)[j] == lines_to_hits(
                    path@,
                    lines.deep_view().take(i as int),
                )[j]);
            }
        }
    }
    assert(lines.deep_view().take(lines@.len() as int) =~= lines.deep_view());
    hits
}

/// Searches one file's bytes and returns every matching line as a hit;
/// an unreadable or empty file has none. The hits come in strictly
/// ascending line order, lines being numbered from 1.
pub fn search_file(path: &str, bytes: &Option<Vec<u8>>, matcher: &LineMatcher) -> (r: Vec<
    SearchHit,
>)
    ensures
        hits_view(r@) == matcher_file_hits(*matcher, path@, bytes_view(*bytes)),
        forall|i: int, j: int| 0 <= i < j < r@.len() ==> r@[i].line < r@[j].line,
        forall|i: int| 0 <= i < r@.len() ==> 1 <= #[trigger] r@[i].line,
{
    match bytes {
        Some(b) => if b.len() == 0 {
            let hits: Vec<SearchHit> = Vec::new();
            assert(hits_view(hits@) =~= matcher_file_hits(*matcher, path@, bytes_view(*bytes)));
            hits
        } else {
            let hay = b.as_slice();
            let lines = search_lines(matcher, hay);
            let hits = hits_from_lines(path, &lines);
            proof {
                assert(hits_view(hits@).len() == hits@.len());
                assert(lines.deep_view().len() == lines@.len());
                assert forall|i: int| 0 <= i < hits@.len() implies hits@[i].line == lines@[i].0 by {
                    assert(hits_view(hits@)[i] == lines_to_hits(path@, lines.deep_view())[i]);
                    assert(lines.deep_view()[i] == (lines@[i].0, lines@[i].1@));
                }
            }
            hits
        },
        None => {
            let hits: Vec<SearchHit> = Vec::new();
            assert(hits_view(hits@) =~= matcher_file_hits(*matcher, path@, bytes_view(*bytes)));
            hits
        },
    }
}

/// A file's hits are exactly the lines that the line matcher finds in its
/// whole contents, in order: each under the file's path, with the line's
/// number and text and no byte offset. An unreadable or empty file has
/// none; how the contents end (with a line feed or not) plays no part.
pub proof fn file_hits_are_matched_lines(m: LineMatcher, path: Seq<char>, bytes: Option<Seq<u8>>)
    ensures
        ({
            let hits = matcher_file_hits(m, path, bytes);
            match bytes {
                Some(b) => if b.len() > 0 {
                    let found = matched_lines(m.pattern_view(), m.ignores_case(), m.is_fixed(), b);
                    &&& file_lines(m.pattern_view(), m.ignores_case(), m.is_fixed(), bytes) == found
                    &&& hits.len() == found.len()
                    &&& forall|k: int|
                        0 <= k < found.len() ==> #[trigger] hits[k] == SearchHitView {
                            file: path,
                            line: found[k].0 as usize,
                            byte_offset: None,
                            content: found[k].1,
                        }
                } else {
                    &&& file_lines(m.pattern_view(), m.ignores_case(), m.is_fixed(), bytes).len() == 0
                    &&& hits.len() == 0
                },
                None => {
                    &&& file_lines(m.pattern_view(), m.ignores_case(), m.is_fixed(), bytes).len() == 0
                    &&& hits.len() == 0
                },
            }
        }),
{
}

/// Under a configuration, a searched file's count is the number of lines
/// the line matcher finds in its whole contents (none when it is
/// unreadable or empty), and its hits are those lines.
pub proof fn file_count_is_matched_lines(config: SearchConfig, f: SourceFile)
    ensures
        ({
            let found = match bytes_view(f.bytes) {
                Some(b) => if b.len() > 0 {
                    matched_lines(config.pattern@, config.ignore_case, config.fixed_strings, b)
                } else {
                    Seq::empty()
                },
                None => Seq::empty(),
            };
            &&& config_file_count(config, f) == found.len()
            &&& config_file_hits(config, f).len() == found.len()
            &&& forall|k: int|
                0 <= k < found.len() ==> #[trigger] config_file_hits(config, f)[k] == SearchHitView {
                    file: f.path@,
                    line: found[k].0 as usize,
                    byte_offset: None,
                    content: found[k].1,
                }
        }),
{
}

/// The error a search setup reports, if any: a pattern that does not
/// compile comes first, then a glob that does not build.
pub open spec fn setup_error(config: SearchConfig) -> Option<Seq<char>> {
    match regex_build_error(config.pattern@, config.ignore_case, config.fixed_strings) {
        Some(e) => Some(e),
        None => glob_error(glob_view(config.glob)),
    }
}

/// Whether a file is searched: its path passes the configured glob.
pub open spec fn searched(config: SearchConfig, f: SourceFile) -> bool {
    passes_glob(glob_view(config.glob), f.path@)
}

/// The hits of one file under the configuration's pattern and options.
pub open spec fn config_file_hits(config: SearchConfig, f: SourceFile) -> Seq<SearchHitView> {
    file_hits(
        config.pattern@,
        config.ignore_case,
        config.fixed_strings,
        f.path@,
        bytes_view(f.bytes),
    )
}

/// Every hit of every searched file, file by file in the given order.
pub open spec fn all_hits(config: SearchConfig, files: Seq<SourceFile>) -> Seq<SearchHitView>
    decreases files.len(),
{
    if files.len() == 0 {
        Seq::empty()
    } else {
        let f = files.last();
        let rest = all_hits(config, files.drop_last());
        if searched(config, f) {
            rest + config_file_hits(config, f)
        } else {
            rest
        }
    }
}

/// At most `max` of the hits when a limit is set: the first ones.
pub open spec fn limited<T>(hits: Seq<T>, max: Option<usize>) -> Seq<T> {
    match max {
        Some(m) => if hits.len() > m {
            hits.take(m as int)
        } else {
            hits
        },
        None => hits,
    }
}

/// Builds the matcher, then the glob filter, for a configuration.
pub(crate) fn setup_for(config: &SearchConfig) -> (r: Result<(LineMatcher, Option<GlobFilter>), String>)
    ensures
        r is Ok <==> setup_error(*config) is None,
        r matches Err(e) ==> setup_error(*config) == Some(e@),
        r matches Ok((m, g)) ==> m.pattern_view() == config.pattern@ && m.ignores_case()
            == config.ignore_case && m.is_fixed() == config.fixed_strings && filter_view(g)
            == glob_view(config.glob),
{
    let matcher = build_matcher(config.pattern.as_str(), config.ignore_case, config.fixed_strings)?;
    let glob = build_glob(&config.glob)?;
    Ok((matcher, glob))
}

/// Searches the given files (those found under `config.root`) for the
/// pattern and returns every matching line, file by file; files that the
/// glob rejects are skipped, and `max_results` keeps only the first hits.
pub fn search(config: &SearchConfig, files: &[SourceFile]) -> (r: Result<Vec<SearchHit>, String>)
    ensures
        r is Ok <==> setup_error(*config) is None,
        r matches Err(e) ==> setup_error(*config) == Some(e@),
        r matches Ok(hits) ==> hits_view(hits@) == limited(
            all_hits(*config, files@),
            config.max_results,
        ),
{
    let (matcher, glob) = setup_for(config)?;
    let mut results: Vec<SearchHit> = Vec::new();
    for i in 0..files.len()
        invariant
            matcher.pattern_view() == config.pattern@,
            matcher.ignores_case() == config.ignore_case,
            matcher.is_fixed() == config.fixed_strings,
            filter_view(glob) == glob_view(config.glob),
            hits_view(results@) == all_hits(*config, files@.take(i as int)),
    {
        assert(files@.take(i + 1).drop_last() == files@.take(i as int));
        assert(files@.take(i + 1).last() == files@[i as int]);
        if path_passes(&glob, files[i].path.as_str()) {
            let mut found = search_file(files[i].path.as_str(), &files[i].bytes, &matcher);
            let ghost old_results = results@;
            let ghost old_found = found@;
            results.append(&mut found);
            assert(hits_view(results@) =~= hits_view(old_results) + hits_view(old_found));
        }
    }
    assert(files@.take(files@.len() as int) == files@);
    if let Some(max_results) = config.max_results {
        let ghost all = results@;
        results.truncate(max_results);
        assert(hits_view(results@) =~= limited(hits_view(all), config.max_results));
    }
    Ok(results)
}

/// The number of matching lines in one file.
pub open spec fn config_file_count(config: SearchConfig, f: SourceFile) -> nat {
    file_lines(config.pattern@, config.ignore_case, config.fixed_strings, bytes_view(f.bytes)).len()
}

/// The `(file, count)` entries for the searched files with at least one match.
pub open spec fn count_entries(config: SearchConfig, files: Seq<SourceFile>) -> Seq<
    (Seq<char>, usize),
>
    decreases files.len(),
{
    if files.len() == 0 {
        Seq::empty()
    } else {
        let f = files.last();
        let rest = count_entries(config, files.drop_last());
        if searched(config, f) && config_file_count(config, f) > 0 {
            rest.push((f.path@, config_file_count(config, f) as usize))
        } else {
            rest
        }
    }
}

/// Counts the matching lines in one file; an unreadable or empty file has none.
pub fn count_matches_in_file(bytes: &Option<Vec<u8>>, matcher: &LineMatcher) -> (r: usize)
    ensures
        r == file_lines(matcher.pattern_view(), matcher.ignores_case(), matcher.is_fixed(), bytes_view(*bytes)).len(),
{
    match bytes {
        Some(b) => if b.len() == 0 {
            0
        } else {
            let lines = search_lines(matcher, b.as_slice());
            assert(lines.deep_view().len() == lines@.len());
            lines.len()
        },
        None => 0,
    }
}

/// Counts the matching lines per searched file, keeping the files with at
/// least one match, in the given order.
pub fn search_count(config: &SearchConfig, files: &[SourceFile]) -> (r: Result<Vec<(String, usize)>, String>)
    ensures
        r is Ok <==> setup_error(*config) is None,
        r matches Err(e) ==> setup_error(*config) == Some(e@),
        r matches Ok(counts) ==> counts.deep_view() == count_entries(*config, files@),
{
    let (matcher, glob) = setup_for(config)?;
    let mut results: Vec<(String, usize)> = Vec::new();
    for i in 0..files.len()
        invariant
            matcher.pattern_view() == config.pattern@,
            matcher.ignores_case() == config.ignore_case,
            matcher.is_fixed() == config.fixed_strings,
            filter_view(glob) == glob_view(config.glob),
            results.deep_view() == count_entries(*config, files@.take(i as int)),
    {
        assert(files@.take(i + 1).drop_last() == files@.take(i as int));
        assert(files@.take(i + 1).last() == files@[i as int]);
        if path_passes(&glob, files[i].path.as_str()) {
            let count = count_matches_in_file(&files[i].bytes, &matcher);
            if count > 0 {
                results.push((files[i].path.clone(), count));
            }
        }
    }
    assert(files@.take(files@.len() as int) == files@);
    Ok(results)
}

/// Whether one file holds at least one match.
pub fn file_has_match(bytes: &Option<Vec<u8>>, matcher: &LineMatcher) -> (r: bool)
    ensures
        r == (file_lines(matcher.pattern_view(), matcher.ignores_case(), matcher.is_fixed(), bytes_view(*bytes)).len() > 0),
{
    count_matches_in_file(bytes, matcher) > 0
}

/// The paths of the searched files with at least one match.
pub open spec fn matching_files(config: SearchConfig, files: Seq<SourceFile>) -> Seq<Seq<char>>
    decreases files.len(),
{
    if files.len() == 0 {
        Seq::empty()
    } else {
        let f = files.last();
        let rest = matching_files(config, files.drop_last());
        if searched(config, f) && config_file_count(config, f) > 0 {
            rest.push(f.path@)
        } else {
            rest
        }
    }
}

/// Returns the searched files that contain at least one match, in the given order.
pub fn search_files_with_matches(config: &SearchConfig, files: &[SourceFile]) -> (r: Result<Vec<String>, String>)
    ensures
        r is Ok <==> setup_error(*config) is None,
        r matches Err(e) ==> setup_error(*config) == Some(e@),
        r matches Ok(names) ==> names.deep_view() == matching_files(*config, files@),
{
    let (matcher, glob) = setup_for(config)?;
    let mut results: Vec<String> = Vec::new();
    for i in 0..files.len()
        invariant
            matcher.pattern_view() == config.pattern@,
            matcher.ignores_case() == config.ignore_case,
            matcher.is_fixed() == config.fixed_strings,
            filter_view(glob) == glob_view(config.glob),
            results.deep_view() == matching_files(*config, files@.take(i as int)),
    {
        assert(files@.take(i + 1).drop_last() == files@.take(i as int));
        assert(files@.take(i + 1).last() == files@[i as int]);
        if path_passes(&glob, files[i].path.as_str()) && file_has_match(&files[i].bytes, &matcher) {
            results.push(files[i].path.clone());
        }
    }
    assert(files@.take(files@.len() as int) == files@);
    Ok(results)
}

/// The sum of the counts of `(file, count)` entries.
pub open spec fn count_total(entries: Seq<(Seq<char>, usize)>) -> int
    decreases entries.len(),
{
    if entries.len() == 0 {
        0
    } else {
        count_total(entries.drop_last()) + entries.last().1
    }
}

/// Counting agrees with searching: the per-file counts add up to the number
/// of hits an unlimited search returns (each count fits in a `usize`).
pub proof fn counts_add_up_to_hits(config: SearchConfig, files: Seq<SourceFile>)
    requires
        forall|i: int| 0 <= i < files.len() ==> config_file_count(config, #[trigger] files[i]) <= usize::MAX,
    ensures
        count_total(count_entries(config, files)) == all_hits(config, files).len(),
    decreases files.len(),
{
    if files.len() > 0 {
        let rest = files.drop_last();
        assert forall|i: int| 0 <= i < rest.len() implies config_file_count(config, #[trigger] rest[i]) <= usize::MAX by {
            assert(rest[i] == files[i]);
        }
        counts_add_up_to_hits(config, rest);
        let f = files.last();
        assert(files[files.len() - 1] == f);
        assert(config_file_hits(config, f).len() == config_file_count(config, f));
        let prev = count_entries(config, rest);
        if searched(config, f) && config_file_count(config, f) > 0 {
            let e = (f.path@, config_file_count(config, f) as usize);
            assert(prev.push(e).drop_last() == prev);
            assert(count_total(prev.push(e)) == count_total(prev) + e.1);
        }
    }
}

/// The files listed as having matches are exactly the files that counting
/// lists, in the same order.
pub proof fn matching_files_are_counted_files(config: SearchConfig, files: Seq<SourceFile>)
    ensures
        matching_files(config, files) == count_entries(config, files).map_values(
            |e: (Seq<char>, usize)| e.0,
        ),
    decreases files.len(),
{
    if files.len() > 0 {
        matching_files_are_counted_files(config, files.drop_last());
    }
    assert(matching_files(config, files) =~= count_entries(config, files).map_values(
        |e: (Seq<char>, usize)| e.0,
    ));
}

/// A limit keeps a prefix of the hits, no longer than the limit.
pub proof fn limit_keeps_first_hits<T>(hits: Seq<T>, max: Option<usize>)
    ensures
        limited(hits, max).len() <= hits.len(),
        limited(hits, max) == hits.take(limited(hits, max).len() as int),
        max matches Some(m) ==> limited(hits, max).len() == if hits.len() > m { m as nat } else { hits.len() },
        max is None ==> limited(hits, max) == hits,
{
    assert(hits.take(hits.len() as int) == hits);
}

/// Every hit comes from a searched file: its file is that file's path and it
/// carries no byte offset.
pub proof fn hits_come_from_searched_files(config: SearchConfig, files: Seq<SourceFile>, k: int)
    requires
        0 <= k < all_hits(config, files).len(),
    ensures
        exists|i: int| 0 <= i < files.len() && searched(config, #[trigger] files[i])
            && all_hits(config, files)[k].file == files[i].path@,
        passes_glob(glob_view(config.glob), all_hits(config, files)[k].file),
        all_hits(config, files)[k].byte_offset is None,
    decreases files.len(),
{
    let rest = files.drop_last();
    let f = files.last();
    let before = all_hits(config, rest);
    if k < before.len() {
        hits_come_from_searched_files(config, rest, k);
        let i = choose|i: int| 0 <= i < rest.len() && searched(config, #[trigger] rest[i])
            && before[k].file == rest[i].path@;
        assert(files[i] == rest[i]);
    } else {
        assert(files[files.len() - 1] == f);
    }
}

/// The hits that `search_file` gives for each searched file under the
/// matcher `m`, concatenated in file order.
pub open spec fn per_file_hits(m: LineMatcher, glob: Option<Seq<char>>, files: Seq<SourceFile>) -> Seq<
    SearchHitView,
>
    decreases files.len(),
{
    if files.len() == 0 {
        Seq::empty()
    } else {
        let f = files.last();
        let rest = per_file_hits(m, glob, files.drop_last());
        if passes_glob(glob, f.path@) {
            rest + matcher_file_hits(m, f.path@, bytes_view(f.bytes))
        } else {
            rest
        }
    }
}

/// Without a limit, a search gives exactly what `search_file` gives for
/// each searched file, with a matcher built from the same pattern and
/// options, concatenated in file order.
pub proof fn search_is_search_file_per_file(config: SearchConfig, m: LineMatcher, files: Seq<SourceFile>)
    requires
        config.max_results is None,
        m.pattern_view() == config.pattern@,
        m.ignores_case() == config.ignore_case,
        m.is_fixed() == config.fixed_strings,
    ensures
        limited(all_hits(config, files), config.max_results) == per_file_hits(
            m,
            glob_view(config.glob),
            files,
        ),
    decreases files.len(),
{
    if files.len() > 0 {
        search_is_search_file_per_file(config, m, files.drop_last());
    }
}

/// How many of the hits are in the file `path`.
pub open spec fn hits_in_file(hits: Seq<SearchHitView>, path: Seq<char>) -> nat
    decreases hits.len(),
{
    if hits.len() == 0 {
        0
    } else {
        hits_in_file(hits.drop_last(), path) + if hits.last().file == path { 1nat } else { 0nat }
    }
}

proof fn lemma_hits_in_file_concat(a: Seq<SearchHitView>, b: Seq<SearchHitView>, path: Seq<char>)
    ensures
        hits_in_file(a + b, path) == hits_in_file(a, path) + hits_in_file(b, path),
    decreases b.len(),
{
    if b.len() > 0 {
        lemma_hits_in_file_concat(a, b.drop_last(), path);
        assert((a + b).drop_last() =~= a + b.drop_last());
    } else {
        assert(a + b =~= a);
    }
}

proof fn lemma_hits_in_one_file(config: SearchConfig, f: SourceFile, path: Seq<char>)
    ensures
        hits_in_file(config_file_hits(config, f), path) == if f.path@ == path {
            config_file_hits(config, f).len()
        } else {
            0
        },
{
    let lines = file_lines(config.pattern@, config.ignore_case, config.fixed_strings, bytes_view(f.bytes));
    lemma_hits_in_lines(f.path@, lines, path);
}

proof fn lemma_hits_in_lines(file: Seq<char>, lines: Seq<(u64, Seq<char>)>, path: Seq<char>)
    ensures
        hits_in_file(lines_to_hits(file, lines), path) == if file == path { lines.len() } else { 0 },
    decreases lines.len(),
{
    if lines.len() > 0 {
        lemma_hits_in_lines(file, lines.drop_last(), path);
        assert(lines_to_hits(file, lines).drop_last() =~= lines_to_hits(file, lines.drop_last()));
    } else {
        assert(lines_to_hits(file, lines).len() == 0);
    }
}

proof fn lemma_no_hits_in_other_files(config: SearchConfig, files: Seq<SourceFile>, path: Seq<char>)
    requires
        forall|i: int|
            0 <= i < files.len() && searched(config, #[trigger] files[i]) && config_file_count(config, files[i])
                > 0 ==> files[i].path@ != path,
    ensures
        hits_in_file(all_hits(config, files), path) == 0,
    decreases files.len(),
{
    if files.len() > 0 {
        let init = files.drop_last();
        assert forall|i: int|
            0 <= i < init.len() && searched(config, #[trigger] init[i]) && config_file_count(config, init[i])
                > 0 implies init[i].path@ != path by {
            assert(init[i] == files[i]);
        }
        lemma_no_hits_in_other_files(config, init, path);
        let f = files.last();
        assert(files[files.len() - 1] == f);
        if searched(config, f) {
            lemma_hits_in_file_concat(all_hits(config, init), config_file_hits(config, f), path);
            lemma_hits_in_one_file(config, f, path);
            assert(config_file_hits(config, f).len() == config_file_count(config, f));
        }
    }
}

proof fn lemma_hits_of_listed_file(config: SearchConfig, files: Seq<SourceFile>, i: int)
    requires
        0 <= i < files.len(),
        searched(config, files[i]),
        config_file_count(config, files[i]) > 0,
        matched_paths_distinct(config, files),
    ensures
        hits_in_file(all_hits(config, files), files[i].path@) == config_file_count(config, files[i]),
    decreases files.len(),
{
    let init = files.drop_last();
    let f = files.last();
    let p = files[i].path@;
    assert(files[files.len() - 1] == f);
    assert(matched_paths_distinct(config, init)) by {
        assert forall|a: int, b: int|
            0 <= a < init.len() && 0 <= b < init.len() && a != b && matched_file(config, #[trigger] init[a])
                && matched_file(config, #[trigger] init[b]) implies init[a].path@ != init[b].path@ by {
            assert(init[a] == files[a]);
            assert(init[b] == files[b]);
        }
    }
    if i < files.len() - 1 {
        assert(init[i] == files[i]);
        lemma_hits_of_listed_file(config, init, i);
        if searched(config, f) {
            lemma_hits_in_file_concat(all_hits(config, init), config_file_hits(config, f), p);
            lemma_hits_in_one_file(config, f, p);
            assert(config_file_hits(config, f).len() == config_file_count(config, f));
            if config_file_count(config, f) > 0 {
                assert(matched_file(config, files[i]) && matched_file(config, files[files.len() - 1]));
                assert(files[i].path@ != files[files.len() - 1].path@);
            }
        }
    } else {
        assert forall|j: int|
            0 <= j < init.len() && searched(config, #[trigger] init[j]) && config_file_count(config, init[j])
                > 0 implies init[j].path@ != p by {
            assert(init[j] == files[j]);
            assert(matched_file(config, files[j]) && matched_file(config, files[i]));
            assert(files[j].path@ != files[i].path@);
        }
        lemma_no_hits_in_other_files(config, init, p);
        lemma_hits_in_file_concat(all_hits(config, init), config_file_hits(config, f), p);
        lemma_hits_in_one_file(config, f, p);
    }
}

proof fn lemma_count_entries_come_from_files(config: SearchConfig, files: Seq<SourceFile>, k: int)
    requires
        0 <= k < count_entries(config, files).len(),
    ensures
        exists|i: int|
            0 <= i < files.len() && matched_file(config, #[trigger] files[i]) && count_entries(
                config,
                files,
            )[k] == (files[i].path@, config_file_count(config, files[i]) as usize),
    decreases files.len(),
{
    let init = files.drop_last();
    let f = files.last();
    let prev = count_entries(config, init);
    assert(files[files.len() - 1] == f);
    if k < prev.len() {
        lemma_count_entries_come_from_files(config, init, k);
        let i = choose|i: int|
            0 <= i < init.len() && matched_file(config, #[trigger] init[i]) && prev[k] == (
            init[i].path@, config_file_count(config, init[i]) as usize);
        assert(init[i] == files[i]);
    }
}

/// Whether a file is searched and holds at least one match.
pub open spec fn matched_file(config: SearchConfig, f: SourceFile) -> bool {
    searched(config, f) && config_file_count(config, f) > 0
}

/// No two searched files with matches share a path.
pub open spec fn matched_paths_distinct(config: SearchConfig, files: Seq<SourceFile>) -> bool {
    forall|a: int, b: int|
        0 <= a < files.len() && 0 <= b < files.len() && a != b && matched_file(config, #[trigger] files[a])
            && matched_file(config, #[trigger] files[b]) ==> files[a].path@ != files[b].path@
}

/// When no two searched files with matches share a path, each
/// `(file, count)` entry of a count gives exactly the number of hits that
/// an unlimited search reports in that file (each count fits in a `usize`).
pub proof fn count_is_hits_per_file(config: SearchConfig, files: Seq<SourceFile>, k: int)
    requires
        0 <= k < count_entries(config, files).len(),
        matched_paths_distinct(config, files),
        forall|i: int| 0 <= i < files.len() ==> config_file_count(config, #[trigger] files[i]) <= usize::MAX,
    ensures
        count_entries(config, files)[k].1 == hits_in_file(
            all_hits(config, files),
            count_entries(config, files)[k].0,
        ),
{
    lemma_count_entries_come_from_files(config, files, k);
    let i = choose|i: int|
        0 <= i < files.len() && matched_file(config, #[trigger] files[i]) && count_entries(config, files)[k]
            == (files[i].path@, config_file_count(config, files[i]) as usize);
    lemma_hits_of_listed_file(config, files, i);
}

} // verus!
