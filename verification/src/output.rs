//! Decisions of the result-producing front ends: building a configuration
//! from optional settings, choosing an output mode, rendering streamed hits,
//! and the plain-text line formats.

use vstd::prelude::*;

use crate::csv::{csv_row_spec, hit_rows_spec, hit_to_csv_row, hits_csv_header_spec, hits_to_csv_header};
use crate::text::{decimal, push_char, push_decimal, trim_end, trim_end_spec};
use crate::context::{ContextLine, ContextLineView, SearchHitWithContext};
use crate::{hits_view, SearchConfig, SearchHit, SearchHitView};

verus! {

/// Builds a search configuration; unset flags are off.
pub fn build_config(
    pattern: String,
    root: String,
    glob: Option<String>,
    max_results: Option<usize>,
    ignore_case: Option<bool>,
    fixed_strings: Option<bool>,
    byte_offset: Option<bool>,
) -> (c: SearchConfig)
    ensures
        c.pattern@ == pattern@,
        c.root@ == root@,
        c.glob == glob,
        c.max_results == max_results,
        c.ignore_case == ignore_case.unwrap_or(false),
        c.fixed_strings == fixed_strings.unwrap_or(false),
        c.byte_offset == byte_offset.unwrap_or(false),
{
    SearchConfig {
        pattern,
        root,
        glob,
        max_results,
        ignore_case: ignore_case.unwrap_or(false),
        fixed_strings: fixed_strings.unwrap_or(false),
        byte_offset: byte_offset.unwrap_or(false),
    }
}

/// How results are handed back.
#[derive(Clone, Copy, Debug, PartialEq, Eq)]
pub enum OutputMode {
    Tuples,
    Json,
    Csv,
}

/// The output mode that the optional `json` and `csv` flags ask for, or
/// the reason they are refused: both modes at once, or an output path
/// without CSV.
pub open spec fn output_mode_spec(json: Option<bool>, csv: Option<bool>, has_output_path: bool) -> Result<
    OutputMode,
    Seq<char>,
> {
    let json = json.unwrap_or(false);
    let csv = csv.unwrap_or(false);
    if json && csv {
        Err("json and csv output modes are mutually exclusive"@)
    } else if has_output_path && !csv {
        Err("output_path is only supported with csv output"@)
    } else if json {
        Ok(OutputMode::Json)
    } else if csv {
        Ok(OutputMode::Csv)
    } else {
        Ok(OutputMode::Tuples)
    }
}

/// How the flags decide the output mode: asking for both JSON and CSV is
/// refused, and so is an output path without CSV; otherwise CSV when it is
/// asked for (with or without an output path), JSON when it is asked for,
/// and tuples when neither is. A flag that is absent counts as false.
pub proof fn output_mode_follows_the_flags(json: Option<bool>, csv: Option<bool>, has_output_path: bool)
    ensures
        ({
            let j = json == Some(true);
            let c = csv == Some(true);
            let r = output_mode_spec(json, csv, has_output_path);
            &&& j && c ==> r == Err::<OutputMode, Seq<char>>(
                "json and csv output modes are mutually exclusive"@,
            )
            &&& !(j && c) && has_output_path && !c ==> r == Err::<OutputMode, Seq<char>>(
                "output_path is only supported with csv output"@,
            )
            &&& c && !j ==> r == Ok::<OutputMode, Seq<char>>(OutputMode::Csv)
            &&& j && !c && !has_output_path ==> r == Ok::<OutputMode, Seq<char>>(OutputMode::Json)
            &&& !j && !c && !has_output_path ==> r == Ok::<OutputMode, Seq<char>>(OutputMode::Tuples)
        }),
{
}

/// Chooses the output mode from the optional `json` and `csv` flags and
/// whether an output path was given.
pub fn check_output_modes(json: Option<bool>, csv: Option<bool>, has_output_path: bool) -> (r: Result<
    OutputMode,
    String,
>)
    ensures
        match (r, output_mode_spec(json, csv, has_output_path)) {
            (Ok(m), Ok(n)) => m == n,
            (Err(e), Err(f)) => e@ == f,
            _ => false,
        },
{
    let return_json = json.unwrap_or(false);
    let return_csv = csv.unwrap_or(false);
    if return_json && return_csv {
        return Err("json and csv output modes are mutually exclusive".to_string());
    }
    if has_output_path && !return_csv {
        return Err("output_path is only supported with csv output".to_string());
    }
    if return_json {
        Ok(OutputMode::Json)
    } else if return_csv {
        Ok(OutputMode::Csv)
    } else {
        Ok(OutputMode::Tuples)
    }
}

/// The hit with its content's trailing whitespace removed.
pub open spec fn trimmed_view(h: SearchHitView) -> SearchHitView {
    SearchHitView { content: trim_end_spec(h.content), ..h }
}

/// A copy of `hit` whose content has lost its trailing whitespace.
pub fn trimmed_hit(hit: &SearchHit) -> (r: SearchHit)
    ensures
        r@ == trimmed_view(hit@),
{
    SearchHit {
        file: hit.file.clone(),
        line: hit.line,
        byte_offset: hit.byte_offset,
        content: trim_end(hit.content.as_str()),
    }
}

/// Removes trailing whitespace from the content of every hit, as JSON
/// output does before serialising.
pub fn trim_hit_contents(hits: &[SearchHit]) -> (r: Vec<SearchHit>)
    ensures
        hits_view(r@) == hits_view(hits@).map_values(|h: SearchHitView| trimmed_view(h)),
{
    let mut out: Vec<SearchHit> = Vec::new();
    for i in 0..hits.len()
        invariant
            out@.len() == i,
            forall|j: int| 0 <= j < i ==> #[trigger] out@[j]@ == trimmed_view(hits@[j]@),
    {
        out.push(trimmed_hit(&hits[i]));
    }
    assert(hits_view(out@) =~= hits_view(hits@).map_values(|h: SearchHitView| trimmed_view(h)));
    out
}

/// What a streaming iterator hands out next.
pub enum StreamStep {
    /// The CSV header line, handed out once before the first row.
    Header(String),
    /// The next hit is to be received and rendered.
    Receive,
}

/// One streamed hit, rendered for its output mode.
pub enum StreamItem {
    /// The hit with trimmed content, for JSON output.
    Json(SearchHit),
    /// The hit as a CSV row.
    Csv(String),
    /// The hit as `(file, line, content)`.
    Tuple(String, usize, String),
}

/// The state of a streaming result iterator.
pub struct StreamFormat {
    pub json_mode: bool,
    pub csv_mode: bool,
    pub csv_header_emitted: bool,
}

impl StreamFormat {
    /// A fresh iterator state for the given mode.
    pub fn new(mode: OutputMode) -> (r: Self)
        ensures
            r.json_mode == (mode == OutputMode::Json),
            r.csv_mode == (mode == OutputMode::Csv),
            !r.csv_header_emitted,
    {
        StreamFormat {
            json_mode: matches!(mode, OutputMode::Json),
            csv_mode: matches!(mode, OutputMode::Csv),
            csv_header_emitted: false,
        }
    }

    /// Decides the next step: in CSV mode the header comes first, once;
    /// otherwise the next hit is received.
    pub fn next_step(&mut self) -> (r: StreamStep)
        ensures
            final(self).json_mode == old(self).json_mode,
            final(self).csv_mode == old(self).csv_mode,
            old(self).csv_mode && !old(self).csv_header_emitted ==> (r matches StreamStep::Header(
                h,
            ) && h@ == hits_csv_header_spec() && final(self).csv_header_emitted),
            !(old(self).csv_mode && !old(self).csv_header_emitted) ==> (r is Receive
                && final(self).csv_header_emitted == old(self).csv_header_emitted),
    {
        if self.csv_mode && !self.csv_header_emitted {
            self.csv_header_emitted = true;
            StreamStep::Header(hits_to_csv_header())
        } else {
            StreamStep::Receive
        }
    }

    /// Renders one received hit for the iterator's mode: JSON wins over CSV,
    /// CSV over tuples.
    pub fn render(&self, hit: &SearchHit) -> (r: StreamItem)
        ensures
            self.json_mode ==> (r matches StreamItem::Json(h) && h@ == trimmed_view(hit@)),
            !self.json_mode && self.csv_mode ==> (r matches StreamItem::Csv(row) && row@
                == csv_row_spec(hit.file@, hit.line as nat, hit.content@)),
            !self.json_mode && !self.csv_mode ==> (r matches StreamItem::Tuple(f, l, c) && f@
                == hit.file@ && l == hit.line && c@ == hit.content@),
    {
        if self.json_mode {
            StreamItem::Json(trimmed_hit(hit))
        } else if self.csv_mode {
            StreamItem::Csv(hit_to_csv_row(hit.file.as_str(), hit.line, hit.content.as_str()))
        } else {
            StreamItem::Tuple(hit.file.clone(), hit.line, hit.content.clone())
        }
    }
}

/// The text of a sequence of pieces, one after the other.
pub open spec fn concat_pieces(pieces: Seq<Seq<char>>) -> Seq<char>
    decreases pieces.len(),
{
    if pieces.len() == 0 {
        Seq::empty()
    } else {
        concat_pieces(pieces.drop_last()) + pieces.last()
    }
}

/// Streaming CSV gives the same text as batch CSV: the header that the
/// first step hands out, followed by the rows rendered for the hits in
/// order, is exactly what `hits_to_csv` returns for those hits.
pub proof fn streamed_csv_is_batch_csv(hits: Seq<SearchHit>, rows: Seq<Seq<char>>)
    requires
        rows.len() == hits.len(),
        forall|i: int|
            0 <= i < hits.len() ==> #[trigger] rows[i] == csv_row_spec(
                hits[i].file@,
                hits[i].line as nat,
                hits[i].content@,
            ),
    ensures
        concat_pieces(rows) == hit_rows_spec(hits),
        hits_csv_header_spec() + concat_pieces(rows) == hits_csv_header_spec() + hit_rows_spec(hits),
    decreases hits.len(),
{
    if hits.len() > 0 {
        let hs = hits.drop_last();
        let rs = rows.drop_last();
        assert forall|i: int| 0 <= i < hs.len() implies #[trigger] rs[i] == csv_row_spec(
            hs[i].file@,
            hs[i].line as nat,
            hs[i].content@,
        ) by {
            assert(rs[i] == rows[i]);
            assert(hs[i] == hits[i]);
        }
        streamed_csv_is_batch_csv(hs, rs);
        assert(rows[rows.len() - 1] == rows.last());
        assert(hits[hits.len() - 1] == hits.last());
        assert(concat_pieces(rows) == concat_pieces(rs) + rows.last());
        assert(hit_rows_spec(hits) == hit_rows_spec(hs) + rows.last());
    }
}

/// A plain-text result line: `file`, the separator, the line number, the
/// separator and a space, then the content without trailing whitespace.
pub open spec fn plain_line_spec(file: Seq<char>, sep: char, line: nat, content: Seq<char>) -> Seq<
    char,
> {
    file + seq![sep] + decimal(line) + seq![sep, ' '] + trim_end_spec(content)
}

/// Formats a result line as `file:line: content` (`sep` is `:` for a
/// matching line and `-` for a context line).
pub fn plain_line(file: &str, sep: char, line: usize, content: &str) -> (r: String)
    ensures
        r@ == plain_line_spec(file@, sep, line as nat, content@),
{
    let mut out = file.to_string();
    push_char(&mut out, sep);
    push_decimal(&mut out, line);
    push_char(&mut out, sep);
    push_char(&mut out, ' ');
    let trimmed = trim_end(content);
    out.append(trimmed.as_str());
    out
}

/// Formats a per-file count as `file:count`.
pub fn count_line(file: &str, count: usize) -> (r: String)
    ensures
        r@ == file@ + seq![':'] + decimal(count as nat),
{
    let mut out = file.to_string();
    push_char(&mut out, ':');
    push_decimal(&mut out, count);
    out
}

/// The plain-text lines of context lines of `file`, with `-` separators.
pub open spec fn context_block_spec(file: Seq<char>, lines: Seq<ContextLineView>) -> Seq<Seq<char>> {
    lines.map_values(|l: ContextLineView| plain_line_spec(file, '-', l.line as nat, l.content))
}

fn push_context_lines(out: &mut Vec<String>, file: &str, lines: &Vec<ContextLine>)
    ensures
        final(out).deep_view() == old(out).deep_view() + context_block_spec(
            file@,
            lines@.map_values(|l: ContextLine| l@),
        ),
{
    let ghost start = out.deep_view();
    for i in 0..lines.len()
        invariant
            out.deep_view() == start + context_block_spec(
                file@,
                lines@.take(i as int).map_values(|l: ContextLine| l@),
            ),
    {
        let line = plain_line(file, '-', lines[i].line, lines[i].content.as_str());
        let ghost before = out.deep_view();
        out.push(line);
        assert(context_block_spec(file@, lines@.take(i + 1).map_values(|l: ContextLine| l@))
            =~= context_block_spec(file@, lines@.take(i as int).map_values(|l: ContextLine| l@)).push(
            line@,
        ));
        assert(out.deep_view() =~= before.push(line@));
    }
    assert(lines@.take(lines@.len() as int) == lines@);
}

/// The plain-text lines of a hit with context: the lines before it
/// (`file-line- content`), the matching line (`file:line: content`), then
/// the lines after it.
pub fn context_hit_lines(hit: &SearchHitWithContext) -> (r: Vec<String>)
    ensures
        r.deep_view() == context_block_spec(hit@.file, hit@.before_context) + seq![
            plain_line_spec(hit@.file, ':', hit.line as nat, hit@.content),
        ] + context_block_spec(hit@.file, hit@.after_context),
{
    let mut out: Vec<String> = Vec::new();
    push_context_lines(&mut out, hit.file.as_str(), &hit.before_context);
    let line = plain_line(hit.file.as_str(), ':', hit.line, hit.content.as_str());
    out.push(line);
    push_context_lines(&mut out, hit.file.as_str(), &hit.after_context);
    assert(Seq::<Seq<char>>::empty() + context_block_spec(hit@.file, hit@.before_context)
        =~= context_block_spec(hit@.file, hit@.before_context));
    out
}

/// The plain-text lines of one hit with context, as a value.
pub open spec fn hit_block_spec(h: crate::context::SearchHitWithContextView) -> Seq<Seq<char>> {
    context_block_spec(h.file, h.before_context) + seq![
        plain_line_spec(h.file, ':', h.line as nat, h.content),
    ] + context_block_spec(h.file, h.after_context)
}

/// The plain-text report of hits with context: each hit's block, with a
/// `--` line between consecutive blocks.
pub open spec fn context_report_spec(hits: Seq<crate::context::SearchHitWithContextView>) -> Seq<Seq<char>>
    decreases hits.len(),
{
    if hits.len() == 0 {
        Seq::empty()
    } else if hits.len() == 1 {
        hit_block_spec(hits[0])
    } else {
        context_report_spec(hits.drop_last()) + seq!["--"@] + hit_block_spec(hits.last())
    }
}

/// Renders hits with context as plain-text lines, blocks separated by `--`.
pub fn context_report(hits: &[SearchHitWithContext]) -> (r: Vec<String>)
    ensures
        r.deep_view() == context_report_spec(crate::context::context_hits_view(hits@)),
{
    let mut out: Vec<String> = Vec::new();
    for i in 0..hits.len()
        invariant
            out.deep_view() == context_report_spec(
                crate::context::context_hits_view(hits@.take(i as int)),
            ),
    {
        let ghost prev = crate::context::context_hits_view(hits@.take(i as int));
        let ghost cur = crate::context::context_hits_view(hits@.take(i + 1));
        assert(cur.drop_last() =~= prev);
        assert(cur.last() == hits@[i as int]@);
        let ghost start = out.deep_view();
        if i > 0 {
            out.push("--".to_string());
        }
        let mut block = context_hit_lines(&hits[i]);
        let ghost b = block.deep_view();
        out.append(&mut block);
        if i == 0 {
            assert(out.deep_view() =~= b);
        } else {
            assert(out.deep_view() =~= start + seq!["--"@] + b);
        }
    }
    assert(hits@.take(hits@.len() as int) == hits@);
    out
}

} // verus!
