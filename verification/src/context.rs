//! Search hits with surrounding context lines (like ripgrep's -B, -A, -C).

use vstd::prelude::*;

use crate::matcher::{glob_view, path_passes, passes_glob};
use crate::search::{lines_to_hits, setup_error};
use crate::SearchConfig;

verus! {

/// A single context line with its line number.
#[derive(Clone, Debug)]
pub struct ContextLine {
    pub line: usize,
    pub content: String,
}

/// The value of a [`ContextLine`].
pub struct ContextLineView {
    pub line: usize,
    pub content: Seq<char>,
}

impl View for ContextLine {
    type V = ContextLineView;

    open spec fn view(&self) -> ContextLineView {
        ContextLineView { line: self.line, content: self.content@ }
    }
}

/// A search hit with surrounding context lines.
#[derive(Clone, Debug)]
pub struct SearchHitWithContext {
    pub file: String,
    pub line: usize,
    pub content: String,
    pub before_context: Vec<ContextLine>,
    pub after_context: Vec<ContextLine>,
}

/// The value of a [`SearchHitWithContext`].
pub struct SearchHitWithContextView {
    pub file: Seq<char>,
    pub line: usize,
    pub content: Seq<char>,
    pub before_context: Seq<ContextLineView>,
    pub after_context: Seq<ContextLineView>,
}

/// The views of a sequence of context lines.
pub open spec fn context_lines_view(lines: Seq<ContextLine>) -> Seq<ContextLineView> {
    lines.map_values(|l: ContextLine| l@)
}

impl View for SearchHitWithContext {
    type V = SearchHitWithContextView;

    open spec fn view(&self) -> SearchHitWithContextView {
        SearchHitWithContextView {
            file: self.file@,
            line: self.line,
            content: self.content@,
            before_context: context_lines_view(self.before_context@),
            after_context: context_lines_view(self.after_context@),
        }
    }
}

/// The views of a sequence of hits with context.
pub open spec fn context_hits_view(hits: Seq<SearchHitWithContext>) -> Seq<SearchHitWithContextView> {
    hits.map_values(|h: SearchHitWithContext| h@)
}

/// Configuration for context search.
#[derive(Clone, Debug)]
pub struct ContextConfig {
    pub base: SearchConfig,
    pub before_context: usize,
    pub after_context: usize,
}

/// One line that a context search reported, in file order: a matching line
/// or a context line.
#[derive(Clone, Debug)]
pub struct CollectedLine {
    pub line_number: usize,
    pub content: String,
    pub is_match: bool,
}

/// The context line that a reported line stands for.
pub open spec fn as_context(l: CollectedLine) -> ContextLineView {
    ContextLineView { line: l.line_number, content: l.content@ }
}

/// How many non-matching lines directly precede position `i`, at most `n`.
pub open spec fn back_run(lines: Seq<CollectedLine>, i: int, n: nat) -> nat
    decreases n,
{
    if n == 0 || i <= 0 || i > lines.len() || lines[i - 1].is_match {
        0
    } else {
        1 + back_run(lines, i - 1, (n - 1) as nat)
    }
}

/// How many non-matching lines start at position `k`, at most `n`.
pub open spec fn fwd_run(lines: Seq<CollectedLine>, k: int, n: nat) -> nat
    decreases n,
{
    if n == 0 || k < 0 || k >= lines.len() || lines[k].is_match {
        0
    } else {
        1 + fwd_run(lines, k + 1, (n - 1) as nat)
    }
}

/// The hit for the matching line at position `i`: up to `before_n`
/// non-matching lines right before it and up to `after_n` right after it,
/// never reaching past another matching line.
pub open spec fn hit_at(
    file: Seq<char>,
    lines: Seq<CollectedLine>,
    i: int,
    before_n: nat,
    after_n: nat,
) -> SearchHitWithContextView {
    SearchHitWithContextView {
        file,
        line: lines[i].line_number,
        content: lines[i].content@,
        before_context: lines.subrange(i - back_run(lines, i, before_n), i).map_values(
            |l: CollectedLine| as_context(l),
        ),
        after_context: lines.subrange(i + 1, i + 1 + fwd_run(lines, i + 1, after_n)).map_values(
            |l: CollectedLine| as_context(l),
        ),
    }
}

/// The hits for the matching lines among the first `k` lines, in order.
pub open spec fn hits_upto(
    file: Seq<char>,
    lines: Seq<CollectedLine>,
    before_n: nat,
    after_n: nat,
    k: nat,
) -> Seq<SearchHitWithContextView>
    decreases k,
{
    if k == 0 {
        Seq::empty()
    } else {
        let prev = hits_upto(file, lines, before_n, after_n, (k - 1) as nat);
        if lines[k - 1].is_match {
            prev.push(hit_at(file, lines, k - 1, before_n, after_n))
        } else {
            prev
        }
    }
}

/// The hits with context of one file's reported lines.
pub open spec fn file_context_hits(
    file: Seq<char>,
    lines: Seq<CollectedLine>,
    before_n: nat,
    after_n: nat,
) -> Seq<SearchHitWithContextView> {
    hits_upto(file, lines, before_n, after_n, lines.len())
}

proof fn lemma_back_run_bound(lines: Seq<CollectedLine>, i: int, n: nat)
    ensures
        back_run(lines, i, n) <= n,
        0 <= i <= lines.len() ==> back_run(lines, i, n) <= i,
    decreases n,
{
    if n > 0 && i > 0 && i <= lines.len() && !lines[i - 1].is_match {
        lemma_back_run_bound(lines, i - 1, (n - 1) as nat);
    }
}

proof fn lemma_fwd_run_bound(lines: Seq<CollectedLine>, k: int, n: nat)
    ensures
        fwd_run(lines, k, n) <= n,
        0 <= k <= lines.len() ==> k + fwd_run(lines, k, n) <= lines.len(),
    decreases n,
{
    if n > 0 && k >= 0 && k < lines.len() && !lines[k].is_match {
        lemma_fwd_run_bound(lines, k + 1, (n - 1) as nat);
    }
}

fn to_context(l: &CollectedLine) -> (r: ContextLine)
    ensures
        r@ == as_context(*l),
{
    ContextLine { line: l.line_number, content: l.content.clone() }
}

/// Turns one file's reported lines into hits: one hit per matching line,
/// with at most `before_n` context lines before it and `after_n` after it;
/// context never extends past a neighbouring matching line.
pub fn context_hits(file: &str, lines: &[CollectedLine], before_n: usize, after_n: usize) -> (r: Vec<
    SearchHitWithContext,
>)
    ensures
        context_hits_view(r@) == file_context_hits(file@, lines@, before_n as nat, after_n as nat),
{
    let ghost bn = before_n as nat;
    let ghost an = after_n as nat;
    let mut hits: Vec<SearchHitWithContext> = Vec::new();
    for i in 0..lines.len()
        invariant
            bn == before_n,
            an == after_n,
            hits@.len() == hits_upto(file@, lines@, bn, an, i as nat).len(),
            context_hits_view(hits@) =~= hits_upto(file@, lines@, bn, an, i as nat),
    {
        if lines[i].is_match {
            let mut before: Vec<ContextLine> = Vec::new();
            let mut j = i;
            while j > 0 && before.len() < before_n && !lines[j - 1].is_match
                invariant
                    j <= i < lines@.len(),
                    bn == before_n,
                    before@.len() == i - j,
                    before@.len() <= before_n,
                    context_lines_view(before@) =~= lines@.subrange(j as int, i as int).map_values(
                        |l: CollectedLine| as_context(l),
                    ),
                    back_run(lines@, i as int, bn) == (i - j) + back_run(
                        lines@,
                        j as int,
                        (bn - (i - j)) as nat,
                    ),
                decreases j,
            {
                j = j - 1;
                let c = to_context(&lines[j]);
                let ghost old_before = before@;
                before.insert(0, c);
                assert forall|m: int| 0 <= m < before@.len() implies #[trigger] context_lines_view(
                    before@,
                )[m] == lines@.subrange(j as int, i as int).map_values(
                    |l: CollectedLine| as_context(l),
                )[m] by {
                    if m > 0 {
                        assert(before@[m] == old_before[m - 1]);
                        assert(context_lines_view(old_before)[m - 1] == lines@.subrange(
                            j + 1,
                            i as int,
                        ).map_values(|l: CollectedLine| as_context(l))[m - 1]);
                    }
                }
            }
            let mut after: Vec<ContextLine> = Vec::new();
            let mut k = i + 1;
            while k < lines.len() && after.len() < after_n && !lines[k].is_match
                invariant
                    i + 1 <= k <= lines@.len(),
                    an == after_n,
                    after@.len() == k - (i + 1),
                    after@.len() <= after_n,
                    context_lines_view(after@) =~= lines@.subrange(i + 1, k as int).map_values(
                        |l: CollectedLine| as_context(l),
                    ),
                    fwd_run(lines@, i + 1, an) == (k - (i + 1)) + fwd_run(
                        lines@,
                        k as int,
                        (an - (k - (i + 1))) as nat,
                    ),
                decreases lines@.len() - k,
            {
                let c = to_context(&lines[k]);
                let ghost old_after = after@;
                after.push(c);
                k = k + 1;
                assert forall|m: int| 0 <= m < after@.len() implies #[trigger] context_lines_view(
                    after@,
                )[m] == lines@.subrange(i + 1, k as int).map_values(
                    |l: CollectedLine| as_context(l),
                )[m] by {
                    if m < after@.len() - 1 {
                        assert(after@[m] == old_after[m]);
                        assert(context_lines_view(old_after)[m] == lines@.subrange(
                            i + 1,
                            k - 1,
                        ).map_values(|l: CollectedLine| as_context(l))[m]);
                    }
                }
            }
            let hit = SearchHitWithContext {
                file: file.to_string(),
                line: lines[i].line_number,
                content: lines[i].content.clone(),
                before_context: before,
                after_context: after,
            };
            assert(hit@ == hit_at(file@, lines@, i as int, bn, an));
            hits.push(hit);
        }
    }
    hits
}

/// The number of matching lines among the first `k` reported lines.
pub open spec fn match_count(lines: Seq<CollectedLine>, k: nat) -> nat
    decreases k,
{
    if k == 0 {
        0
    } else {
        match_count(lines, (k - 1) as nat) + if lines[k - 1].is_match { 1nat } else { 0nat }
    }
}

proof fn lemma_back_run_no_match(lines: Seq<CollectedLine>, i: int, n: nat, t: int)
    requires
        0 <= i <= lines.len(),
        i - back_run(lines, i, n) <= t < i,
    ensures
        !lines[t].is_match,
    decreases n,
{
    if n > 0 && i > 0 && !lines[i - 1].is_match && t < i - 1 {
        lemma_back_run_no_match(lines, i - 1, (n - 1) as nat, t);
    }
}

proof fn lemma_fwd_run_no_match(lines: Seq<CollectedLine>, k: int, n: nat, t: int)
    requires
        0 <= k <= lines.len(),
        k <= t < k + fwd_run(lines, k, n),
    ensures
        !lines[t].is_match,
    decreases n,
{
    if n > 0 && k < lines.len() && !lines[k].is_match && t > k {
        lemma_fwd_run_no_match(lines, k + 1, (n - 1) as nat, t);
    }
}

/// The context of a hit is bounded and never holds a matching line: at most
/// `before_n` lines before, at most `after_n` after, and every one of them
/// is a non-matching line adjacent to the match.
pub proof fn context_is_bounded_and_free_of_matches(
    lines: Seq<CollectedLine>,
    i: int,
    before_n: nat,
    after_n: nat,
)
    requires
        0 <= i < lines.len(),
    ensures
        back_run(lines, i, before_n) <= before_n,
        back_run(lines, i, before_n) <= i,
        fwd_run(lines, i + 1, after_n) <= after_n,
        i + 1 + fwd_run(lines, i + 1, after_n) <= lines.len(),
        forall|t: int| i - back_run(lines, i, before_n) <= t < i ==> !(#[trigger] lines[t]).is_match,
        forall|t: int|
            i + 1 <= t < i + 1 + fwd_run(lines, i + 1, after_n) ==> !(#[trigger] lines[t]).is_match,
{
    lemma_back_run_bound(lines, i, before_n);
    lemma_fwd_run_bound(lines, i + 1, after_n);
    assert forall|t: int| i - back_run(lines, i, before_n) <= t < i implies !(
    #[trigger] lines[t]).is_match by {
        lemma_back_run_no_match(lines, i, before_n, t);
    }
    assert forall|t: int| i + 1 <= t < i + 1 + fwd_run(lines, i + 1, after_n) implies !(
    #[trigger] lines[t]).is_match by {
        lemma_fwd_run_no_match(lines, i + 1, after_n, t);
    }
}

proof fn lemma_back_run_stops(lines: Seq<CollectedLine>, i: int, n: nat)
    requires
        0 <= i <= lines.len(),
        back_run(lines, i, n) < n,
    ensures
        i - back_run(lines, i, n) == 0 || lines[i - back_run(lines, i, n) - 1].is_match,
    decreases n,
{
    if i > 0 && !lines[i - 1].is_match {
        lemma_back_run_stops(lines, i - 1, (n - 1) as nat);
    }
}

proof fn lemma_fwd_run_stops(lines: Seq<CollectedLine>, k: int, n: nat)
    requires
        0 <= k <= lines.len(),
        fwd_run(lines, k, n) < n,
    ensures
        k + fwd_run(lines, k, n) == lines.len() || lines[k + fwd_run(lines, k, n)].is_match,
    decreases n,
{
    if k < lines.len() && !lines[k].is_match {
        lemma_fwd_run_stops(lines, k + 1, (n - 1) as nat);
    }
}

/// The hit for a matching line carries that line, and its context is the
/// nearest run of non-matching lines on each side: before it, the last
/// `min(before_n, m)` lines, where `m` is how many non-matching lines
/// directly precede the match (so it stops early only at the start of the
/// file or at another matching line); after it, likewise with `after_n`.
/// Each side depends on its own size alone.
pub proof fn context_is_the_nearest_run(
    file: Seq<char>,
    lines: Seq<CollectedLine>,
    i: int,
    before_n: nat,
    after_n: nat,
)
    requires
        0 <= i < lines.len(),
    ensures
        ({
            let h = hit_at(file, lines, i, before_n, after_n);
            let kb = h.before_context.len() as int;
            let ka = h.after_context.len() as int;
            &&& h.file == file
            &&& h.line == lines[i].line_number
            &&& h.content == lines[i].content@
            &&& kb <= before_n
            &&& kb <= i
            &&& forall|t: int|
                0 <= t < kb ==> (#[trigger] h.before_context[t]) == ContextLineView {
                    line: lines[i - kb + t].line_number,
                    content: lines[i - kb + t].content@,
                } && !lines[i - kb + t].is_match
            &&& kb < before_n ==> (i - kb == 0 || lines[i - kb - 1].is_match)
            &&& ka <= after_n
            &&& i + 1 + ka <= lines.len()
            &&& forall|t: int|
                0 <= t < ka ==> (#[trigger] h.after_context[t]) == ContextLineView {
                    line: lines[i + 1 + t].line_number,
                    content: lines[i + 1 + t].content@,
                } && !lines[i + 1 + t].is_match
            &&& ka < after_n ==> (i + 1 + ka == lines.len() || lines[i + 1 + ka].is_match)
        }),
{
    context_is_bounded_and_free_of_matches(lines, i, before_n, after_n);
    let b = back_run(lines, i, before_n) as int;
    let a = fwd_run(lines, i + 1, after_n) as int;
    if b < before_n {
        lemma_back_run_stops(lines, i, before_n);
    }
    if a < after_n {
        lemma_fwd_run_stops(lines, i + 1, after_n);
    }
    let h = hit_at(file, lines, i, before_n, after_n);
    assert(h.before_context.len() == b);
    assert(h.after_context.len() == a);
    assert forall|t: int| 0 <= t < b implies (#[trigger] h.before_context[t]) == ContextLineView {
        line: lines[i - b + t].line_number,
        content: lines[i - b + t].content@,
    } && !lines[i - b + t].is_match by {
        assert(h.before_context[t] == as_context(lines.subrange(i - b, i)[t]));
    }
    assert forall|t: int| 0 <= t < a implies (#[trigger] h.after_context[t]) == ContextLineView {
        line: lines[i + 1 + t].line_number,
        content: lines[i + 1 + t].content@,
    } && !lines[i + 1 + t].is_match by {
        assert(h.after_context[t] == as_context(lines.subrange(i + 1, i + 1 + a)[t]));
    }
}

/// Whether `hit` is the hit for one of the matching lines among the first `k`.
pub open spec fn from_matching_line(
    file: Seq<char>,
    lines: Seq<CollectedLine>,
    before_n: nat,
    after_n: nat,
    k: nat,
    hit: SearchHitWithContextView,
) -> bool {
    exists|i: int|
        0 <= i < k && lines[i].is_match && hit == #[trigger] hit_at(file, lines, i, before_n, after_n)
}

/// There is one hit per matching line, and each hit is the hit for some
/// matching line.
pub proof fn one_hit_per_matching_line(
    file: Seq<char>,
    lines: Seq<CollectedLine>,
    before_n: nat,
    after_n: nat,
    k: nat,
)
    requires
        k <= lines.len(),
    ensures
        hits_upto(file, lines, before_n, after_n, k).len() == match_count(lines, k),
        forall|h: int|
            0 <= h < hits_upto(file, lines, before_n, after_n, k).len() ==> from_matching_line(
                file,
                lines,
                before_n,
                after_n,
                k,
                #[trigger] hits_upto(file, lines, before_n, after_n, k)[h],
            ),
    decreases k,
{
    if k > 0 {
        let k1 = (k - 1) as nat;
        one_hit_per_matching_line(file, lines, before_n, after_n, k1);
        let prev = hits_upto(file, lines, before_n, after_n, k1);
        let cur = hits_upto(file, lines, before_n, after_n, k);
        assert forall|h: int| 0 <= h < cur.len() implies from_matching_line(
            file,
            lines,
            before_n,
            after_n,
            k,
            #[trigger] cur[h],
        ) by {
            if h < prev.len() {
                assert(cur[h] == prev[h]);
                assert(from_matching_line(file, lines, before_n, after_n, k1, prev[h]));
                let i = choose|i: int|
                    0 <= i < k1 && lines[i].is_match && prev[h] == #[trigger] hit_at(
                        file,
                        lines,
                        i,
                        before_n,
                        after_n,
                    );
                assert(cur[h] == hit_at(file, lines, i, before_n, after_n));
            } else {
                assert(cur[h] == hit_at(file, lines, k - 1, before_n, after_n));
            }
        }
    }
}

/// Every matching line has its hit: for each matching line among the first
/// `k`, one of the hits is the hit for that line.
pub proof fn every_matching_line_has_its_hit(
    file: Seq<char>,
    lines: Seq<CollectedLine>,
    before_n: nat,
    after_n: nat,
    k: nat,
    i: int,
)
    requires
        k <= lines.len(),
        0 <= i < k,
        lines[i].is_match,
    ensures
        exists|h: int|
            0 <= h < hits_upto(file, lines, before_n, after_n, k).len() && #[trigger] hits_upto(
                file,
                lines,
                before_n,
                after_n,
                k,
            )[h] == hit_at(file, lines, i, before_n, after_n),
    decreases k,
{
    let k1 = (k - 1) as nat;
    let prev = hits_upto(file, lines, before_n, after_n, k1);
    let cur = hits_upto(file, lines, before_n, after_n, k);
    if i == k - 1 {
        assert(cur[prev.len() as int] == hit_at(file, lines, i, before_n, after_n));
    } else {
        every_matching_line_has_its_hit(file, lines, before_n, after_n, k1, i);
        let h = choose|h: int| 0 <= h < prev.len() && #[trigger] prev[h] == hit_at(file, lines, i, before_n, after_n);
        if lines[k - 1].is_match {
            assert(cur[h] == prev[h]);
        }
    }
}

/// With no context asked for, every hit has empty context.
pub proof fn no_context_when_none_asked(lines: Seq<CollectedLine>, i: int)
    requires
        0 <= i < lines.len(),
    ensures
        hit_at(Seq::empty(), lines, i, 0, 0).before_context.len() == 0,
        hit_at(Seq::empty(), lines, i, 0, 0).after_context.len() == 0,
{
}

/// The matching lines among the first `k` reported lines, as line number
/// and content, in order.
pub open spec fn matching_lines(lines: Seq<CollectedLine>, k: nat) -> Seq<(usize, Seq<char>)>
    decreases k,
{
    if k == 0 {
        Seq::empty()
    } else {
        let prev = matching_lines(lines, (k - 1) as nat);
        if lines[k - 1].is_match {
            prev.push((lines[k - 1].line_number, lines[k - 1].content@))
        } else {
            prev
        }
    }
}

/// The line number and content of a hit with context.
pub open spec fn hit_line(h: SearchHitWithContextView) -> (usize, Seq<char>) {
    (h.line, h.content)
}

/// The hits of a file are its matching lines, in order and under its name;
/// with no context asked for, every hit's context lists are empty.
pub proof fn hits_are_the_matching_lines(
    file: Seq<char>,
    lines: Seq<CollectedLine>,
    before_n: nat,
    after_n: nat,
    k: nat,
)
    requires
        k <= lines.len(),
    ensures
        hits_upto(file, lines, before_n, after_n, k).map_values(
            |h: SearchHitWithContextView| hit_line(h),
        ) == matching_lines(lines, k),
        forall|h: int|
            0 <= h < hits_upto(file, lines, before_n, after_n, k).len() ==> (#[trigger] hits_upto(
                file,
                lines,
                before_n,
                after_n,
                k,
            )[h]).file == file,
        before_n == 0 && after_n == 0 ==> forall|h: int|
            0 <= h < hits_upto(file, lines, before_n, after_n, k).len() ==> (#[trigger] hits_upto(
                file,
                lines,
                before_n,
                after_n,
                k,
            )[h]).before_context.len() == 0 && hits_upto(file, lines, before_n, after_n, k)[h].after_context.len() == 0,
    decreases k,
{
    if k > 0 {
        let k1 = (k - 1) as nat;
        hits_are_the_matching_lines(file, lines, before_n, after_n, k1);
        let prev = hits_upto(file, lines, before_n, after_n, k1);
        let cur = hits_upto(file, lines, before_n, after_n, k);
        if lines[k - 1].is_match {
            let h = hit_at(file, lines, k - 1, before_n, after_n);
            assert(cur == prev.push(h));
            assert(cur.map_values(|h: SearchHitWithContextView| hit_line(h)) =~= prev.map_values(
                |h: SearchHitWithContextView| hit_line(h),
            ).push(hit_line(h)));
            assert forall|j: int| 0 <= j < cur.len() implies (#[trigger] cur[j]).file == file by {
                if j < prev.len() {
                    assert(cur[j] == prev[j]);
                }
            }
            if before_n == 0 && after_n == 0 {
                assert forall|j: int| 0 <= j < cur.len() implies (#[trigger] cur[j]).before_context.len()
                    == 0 && cur[j].after_context.len() == 0 by {
                    if j < prev.len() {
                        assert(cur[j] == prev[j]);
                    }
                }
            }
        }
    }
}

/// With no context asked for, a file whose reported matching lines are the
/// lines that the line matcher found gives exactly the plain hits of those
/// lines (same file, line numbers and contents, in order), each with empty
/// context.
pub proof fn zero_context_is_plain_search(
    path: Seq<char>,
    lines: Seq<CollectedLine>,
    found: Seq<(u64, Seq<char>)>,
)
    requires
        matching_lines(lines, lines.len()) == found.map_values(
            |l: (u64, Seq<char>)| (l.0 as usize, l.1),
        ),
    ensures
        file_context_hits(path, lines, 0, 0).len() == lines_to_hits(path, found).len(),
        forall|h: int|
            0 <= h < lines_to_hits(path, found).len() ==> {
                let c = #[trigger] file_context_hits(path, lines, 0, 0)[h];
                let p = lines_to_hits(path, found)[h];
                &&& c.file == p.file
                &&& c.line == p.line
                &&& c.content == p.content
                &&& c.before_context.len() == 0
                &&& c.after_context.len() == 0
            },
{
    hits_are_the_matching_lines(path, lines, 0, 0, lines.len());
    let hs = file_context_hits(path, lines, 0, 0);
    let keyed = hs.map_values(|h: SearchHitWithContextView| hit_line(h));
    assert(keyed.len() == hs.len());
    assert forall|h: int| 0 <= h < lines_to_hits(path, found).len() implies {
        let c = #[trigger] file_context_hits(path, lines, 0, 0)[h];
        let p = lines_to_hits(path, found)[h];
        &&& c.file == p.file
        &&& c.line == p.line
        &&& c.content == p.content
        &&& c.before_context.len() == 0
        &&& c.after_context.len() == 0
    } by {
        assert(keyed[h] == hit_line(hs[h]));
    }
}

/// A context search does not depend on the result limit: two
/// configurations that differ only in it fail alike and give the same hits.
pub proof fn context_search_ignores_limit(a: ContextConfig, b: ContextConfig, files: Seq<CollectedFile>)
    requires
        a.base.pattern@ == b.base.pattern@,
        a.base.ignore_case == b.base.ignore_case,
        a.base.fixed_strings == b.base.fixed_strings,
        glob_view(a.base.glob) == glob_view(b.base.glob),
        a.before_context == b.before_context,
        a.after_context == b.after_context,
    ensures
        setup_error(a.base) == setup_error(b.base),
        all_context_hits(a, files) == all_context_hits(b, files),
    decreases files.len(),
{
    if files.len() > 0 {
        context_search_ignores_limit(a, b, files.drop_last());
    }
}

/// One file's reported lines, as a context search hands them over.
pub struct CollectedFile {
    pub path: String,
    pub lines: Vec<CollectedLine>,
}

/// Every hit with context of every searched file, file by file.
pub open spec fn all_context_hits(config: ContextConfig, files: Seq<CollectedFile>) -> Seq<
    SearchHitWithContextView,
>
    decreases files.len(),
{
    if files.len() == 0 {
        Seq::empty()
    } else {
        let f = files.last();
        let rest = all_context_hits(config, files.drop_last());
        if passes_glob(glob_view(config.base.glob), f.path@) {
            rest + file_context_hits(
                f.path@,
                f.lines@,
                config.before_context as nat,
                config.after_context as nat,
            )
        } else {
            rest
        }
    }
}

/// Search with context lines (-A, -B, -C equivalent) over the lines that a
/// context search reported for each file found under the root; files that
/// the glob rejects are skipped.
pub fn search_with_context(config: &ContextConfig, files: &[CollectedFile]) -> (r: Result<
    Vec<SearchHitWithContext>,
    String,
>)
    ensures
        r is Ok <==> setup_error(config.base) is None,
        r matches Err(e) ==> setup_error(config.base) == Some(e@),
        r matches Ok(hits) ==> context_hits_view(hits@) == all_context_hits(*config, files@),
{
    let (_matcher, glob) = crate::search::setup_for(&config.base)?;
    let mut results: Vec<SearchHitWithContext> = Vec::new();
    for i in 0..files.len()
        invariant
            crate::matcher::filter_view(glob) == glob_view(config.base.glob),
            context_hits_view(results@) == all_context_hits(*config, files@.take(i as int)),
    {
        assert(files@.take(i + 1).drop_last() == files@.take(i as int));
        assert(files@.take(i + 1).last() == files@[i as int]);
        if path_passes(&glob, files[i].path.as_str()) {
            let mut found = context_hits(
                files[i].path.as_str(),
                files[i].lines.as_slice(),
                config.before_context,
                config.after_context,
            );
            let ghost old_results = results@;
            let ghost old_found = found@;
            results.append(&mut found);
            assert(context_hits_view(results@) =~= context_hits_view(old_results)
                + context_hits_view(old_found));
        }
    }
    assert(files@.take(files@.len() as int) == files@);
    Ok(results)
}

} // verus!
