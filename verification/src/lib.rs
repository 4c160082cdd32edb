//! Verified core of a ripgrep-style file search library: search configuration,
//! per-file line matching over a regex matcher, glob filtering of walked paths,
//! context assembly, CSV output and command-line option handling.

use vstd::prelude::*;

pub mod text;
pub mod csv;
pub mod matcher;
pub mod search;
pub mod context;
pub mod output;
pub mod ast;
pub mod cli;

verus! {

/// Configuration for a search operation.
#[derive(Clone, Debug)]
pub struct SearchConfig {
    pub pattern: String,
    pub root: String,
    pub glob: Option<String>,
    pub max_results: Option<usize>,
    pub ignore_case: bool,
    pub fixed_strings: bool,
    pub byte_offset: bool,
}

impl SearchConfig {
    /// A configuration with the given pattern and root and every option off.
    pub fn new(pattern: String, root: String) -> (c: Self)
        ensures
            c.pattern@ == pattern@,
            c.root@ == root@,
            c.glob is None,
            c.max_results is None,
            !c.ignore_case,
            !c.fixed_strings,
            !c.byte_offset,
    {
        SearchConfig {
            pattern,
            root,
            glob: None,
            max_results: None,
            ignore_case: false,
            fixed_strings: false,
            byte_offset: false,
        }
    }
}

/// A single search result hit.
#[derive(Clone, Debug)]
pub struct SearchHit {
    pub file: String,
    pub line: usize,
    pub byte_offset: Option<u64>,
    pub content: String,
}

/// The mathematical value of a [`SearchHit`].
pub struct SearchHitView {
    pub file: Seq<char>,
    pub line: usize,
    pub byte_offset: Option<u64>,
    pub content: Seq<char>,
}

impl View for SearchHit {
    type V = SearchHitView;

    open spec fn view(&self) -> SearchHitView {
        SearchHitView {
            file: self.file@,
            line: self.line,
            byte_offset: self.byte_offset,
            content: self.content@,
        }
    }
}

/// The views of a sequence of hits.
pub open spec fn hits_view(hits: Seq<SearchHit>) -> Seq<SearchHitView> {
    hits.map_values(|h: SearchHit| h@)
}

} // verus!
