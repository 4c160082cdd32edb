//! Command-line option handling: scanning the arguments, the checks that
//! refuse contradictory options, and the choice of what to run.

use vstd::prelude::*;

use crate::ast::AstQueryType;
use crate::text::str_eq;
use crate::context::ContextConfig;
use crate::SearchConfig;

verus! {

/// A flag that takes a value.
#[derive(Clone, Copy, Debug, PartialEq, Eq)]
pub enum ValueFlag {
    Glob,
    Limit,
    Output,
    Root,
    Context,
    BeforeContext,
    AfterContext,
}

/// A flag that stands alone.
#[derive(Clone, Copy, Debug, PartialEq, Eq)]
pub enum SwitchFlag {
    IgnoreCase,
    Json,
    Csv,
    Count,
    FilesWithMatches,
    FixedStrings,
    Functions,
    Classes,
    Imports,
}

/// What one command-line argument is.
#[derive(Clone, Copy, Debug, PartialEq, Eq)]
pub enum ArgKind {
    Value(ValueFlag),
    Switch(SwitchFlag),
    Unknown,
    Positional,
}

/// Classifies an argument by its spelling; anything else starting with `-`
/// is an unknown flag, and the rest are positional.
pub open spec fn arg_kind(a: Seq<char>) -> ArgKind {
    if a == "-g"@ || a == "--glob"@ {
        ArgKind::Value(ValueFlag::Glob)
    } else if a == "-n"@ || a == "--limit"@ {
        ArgKind::Value(ValueFlag::Limit)
    } else if a == "-i"@ || a == "--ignore-case"@ {
        ArgKind::Switch(SwitchFlag::IgnoreCase)
    } else if a == "-j"@ || a == "--json"@ {
        ArgKind::Switch(SwitchFlag::Json)
    } else if a == "--csv"@ {
        ArgKind::Switch(SwitchFlag::Csv)
    } else if a == "-o"@ || a == "--output"@ {
        ArgKind::Value(ValueFlag::Output)
    } else if a == "-r"@ || a == "--root"@ {
        ArgKind::Value(ValueFlag::Root)
    } else if a == "-c"@ || a == "--count"@ {
        ArgKind::Switch(SwitchFlag::Count)
    } else if a == "-l"@ || a == "--files-with-matches"@ {
        ArgKind::Switch(SwitchFlag::FilesWithMatches)
    } else if a == "-F"@ || a == "--fixed-strings"@ {
        ArgKind::Switch(SwitchFlag::FixedStrings)
    } else if a == "--functions"@ {
        ArgKind::Switch(SwitchFlag::Functions)
    } else if a == "--classes"@ {
        ArgKind::Switch(SwitchFlag::Classes)
    } else if a == "--imports"@ {
        ArgKind::Switch(SwitchFlag::Imports)
    } else if a == "-C"@ || a == "--context"@ {
        ArgKind::Value(ValueFlag::Context)
    } else if a == "-B"@ || a == "--before-context"@ {
        ArgKind::Value(ValueFlag::BeforeContext)
    } else if a == "-A"@ || a == "--after-context"@ {
        ArgKind::Value(ValueFlag::AfterContext)
    } else if a.len() > 0 && a[0] == '-' {
        ArgKind::Unknown
    } else {
        ArgKind::Positional
    }
}

fn is_one_of(a: &str, short: &str, long: &str) -> (r: bool)
    ensures
        r == (a@ == short@ || a@ == long@),
{
    str_eq(a, short) || str_eq(a, long)
}

/// Classifies one command-line argument.
pub fn classify_arg(a: &str) -> (r: ArgKind)
    ensures
        r == arg_kind(a@),
{
    if is_one_of(a, "-g", "--glob") {
        ArgKind::Value(ValueFlag::Glob)
    } else if is_one_of(a, "-n", "--limit") {
        ArgKind::Value(ValueFlag::Limit)
    } else if is_one_of(a, "-i", "--ignore-case") {
        ArgKind::Switch(SwitchFlag::IgnoreCase)
    } else if is_one_of(a, "-j", "--json") {
        ArgKind::Switch(SwitchFlag::Json)
    } else if str_eq(a, "--csv") {
        ArgKind::Switch(SwitchFlag::Csv)
    } else if is_one_of(a, "-o", "--output") {
        ArgKind::Value(ValueFlag::Output)
    } else if is_one_of(a, "-r", "--root") {
        ArgKind::Value(ValueFlag::Root)
    } else if is_one_of(a, "-c", "--count") {
        ArgKind::Switch(SwitchFlag::Count)
    } else if is_one_of(a, "-l", "--files-with-matches") {
        ArgKind::Switch(SwitchFlag::FilesWithMatches)
    } else if is_one_of(a, "-F", "--fixed-strings") {
        ArgKind::Switch(SwitchFlag::FixedStrings)
    } else if str_eq(a, "--functions") {
        ArgKind::Switch(SwitchFlag::Functions)
    } else if str_eq(a, "--classes") {
        ArgKind::Switch(SwitchFlag::Classes)
    } else if str_eq(a, "--imports") {
        ArgKind::Switch(SwitchFlag::Imports)
    } else if is_one_of(a, "-C", "--context") {
        ArgKind::Value(ValueFlag::Context)
    } else if is_one_of(a, "-B", "--before-context") {
        ArgKind::Value(ValueFlag::BeforeContext)
    } else if is_one_of(a, "-A", "--after-context") {
        ArgKind::Value(ValueFlag::AfterContext)
    } else if a.unicode_len() > 0 && a.get_char(0) == '-' {
        ArgKind::Unknown
    } else {
        ArgKind::Positional
    }
}

/// A decimal digit.
pub open spec fn is_digit(c: char) -> bool {
    '0' <= c && c <= '9'
}

/// The number that a run of decimal digits spells.
pub open spec fn digits_value(d: Seq<char>) -> int
    decreases d.len(),
{
    if d.len() == 0 {
        0
    } else {
        digits_value(d.drop_last()) * 10 + (d.last() as int - '0' as int)
    }
}

proof fn lemma_digits_value_nonneg(d: Seq<char>)
    requires
        forall|i: int| 0 <= i < d.len() ==> is_digit(#[trigger] d[i]),
    ensures
        digits_value(d) >= 0,
    decreases d.len(),
{
    if d.len() > 0 {
        let p = d.drop_last();
        assert forall|i: int| 0 <= i < p.len() implies is_digit(#[trigger] p[i]) by {
            assert(p[i] == d[i]);
        }
        lemma_digits_value_nonneg(p);
        assert(is_digit(d[d.len() - 1]));
    }
}

/// The digits part of an unsigned number: without a leading `+`.
pub open spec fn unsigned_body(s: Seq<char>) -> Seq<char> {
    if s.len() > 0 && s[0] == '+' {
        s.skip(1)
    } else {
        s
    }
}

/// `s` read as a `usize` the way `str::parse::<usize>` reads it: an
/// optional `+`, then at least one decimal digit and nothing else, with a
/// value that fits.
pub open spec fn parse_usize_spec(s: Seq<char>) -> Option<usize> {
    let b = unsigned_body(s);
    if b.len() > 0 && (forall|i: int| 0 <= i < b.len() ==> is_digit(#[trigger] b[i]))
        && digits_value(b) <= usize::MAX {
        Some(digits_value(b) as usize)
    } else {
        None
    }
}

/// Reads `s` as a non-negative decimal number that fits in a `usize`.
pub fn parse_usize(s: &str) -> (r: Option<usize>)
    ensures
        r == parse_usize_spec(s@),
{
    let n = s.unicode_len();
    let has_sign = n > 0 && s.get_char(0) == '+';
    let ghost start: int = if has_sign { 1 } else { 0 };
    let mut idx: usize = 0;
    let mut digits: usize = 0;
    let mut all_digits = true;
    let mut acc: Option<usize> = Some(0);
    for x in it: s.chars()
        invariant
            it.seq() == s@,
            n == s@.len(),
            idx == it.index(),
            has_sign == (s@.len() > 0 && s@[0] == '+'),
            start == if has_sign { 1int } else { 0int },
            idx >= start || idx == 0,
            digits == if idx >= start { idx - start } else { 0 },
            all_digits == (forall|i: int| start <= i < idx ==> is_digit(#[trigger] s@[i])),
            all_digits ==> acc == if digits_value(s@.subrange(start, if idx >= start { idx as int } else { start })) <= usize::MAX {
                Some(digits_value(s@.subrange(start, if idx >= start { idx as int } else { start })) as usize)
            } else {
                None::<usize>
            },
    {
        let ghost k = it.index() as int;
        assert(x == s@[k]);
        if idx == 0 && has_sign {
            assert(s@.subrange(start, start) =~= Seq::<char>::empty());
        } else {
            let ghost prev = s@.subrange(start, k);
            assert(s@.subrange(start, k + 1) =~= prev.push(x));
            assert(s@.subrange(start, k + 1).drop_last() =~= prev);
            digits = digits + 1;
            if '0' <= x && x <= '9' {
                let d: usize = (x as u32 - 48u32) as usize;
                assert(d == x as int - '0' as int);
                assert(digits_value(prev.push(x)) == digits_value(prev) * 10 + d);
                proof {
                    if all_digits {
                        assert forall|i: int| 0 <= i < prev.len() implies is_digit(#[trigger] prev[i]) by {
                            assert(prev[i] == s@[start + i]);
                        }
                        lemma_digits_value_nonneg(prev);
                    }
                }
                acc = match acc {
                    Some(v) => match v.checked_mul(10) {
                        Some(w) => w.checked_add(d),
                        None => None,
                    },
                    None => None,
                };
            } else {
                all_digits = false;
            }
        }
        idx = idx + 1;
    }
    let ghost b = unsigned_body(s@);
    assert(b =~= s@.subrange(start, s@.len() as int));
    assert(b.len() == digits);
    assert(all_digits == (forall|i: int| 0 <= i < b.len() ==> is_digit(#[trigger] b[i]))) by {
        if all_digits {
            assert forall|i: int| 0 <= i < b.len() implies is_digit(#[trigger] b[i]) by {
                assert(b[i] == s@[start + i]);
            }
        } else {
            let i = choose|i: int| start <= i < idx && !is_digit(#[trigger] s@[i]);
            assert(b[i - start] == s@[i]);
        }
    }
    if digits > 0 && all_digits {
        acc
    } else {
        None
    }
}

/// The options gathered from the command line.
#[derive(Clone, Debug)]
pub struct CliOptions {
    pub pattern: Option<String>,
    pub root: String,
    pub glob: Option<String>,
    pub max_results: Option<usize>,
    pub ignore_case: bool,
    pub json: bool,
    pub csv: bool,
    pub output_path: Option<String>,
    pub count: bool,
    pub files_with_matches: bool,
    pub fixed_strings: bool,
    pub ast_mode: Option<AstQueryType>,
    pub before_context: usize,
    pub after_context: usize,
}

/// The value of [`CliOptions`].
pub struct CliOptionsView {
    pub pattern: Option<Seq<char>>,
    pub root: Seq<char>,
    pub glob: Option<Seq<char>>,
    pub max_results: Option<usize>,
    pub ignore_case: bool,
    pub json: bool,
    pub csv: bool,
    pub output_path: Option<Seq<char>>,
    pub count: bool,
    pub files_with_matches: bool,
    pub fixed_strings: bool,
    pub ast_mode: Option<AstQueryType>,
    pub before_context: usize,
    pub after_context: usize,
}

/// The characters of an optional string.
pub open spec fn opt_view(o: Option<String>) -> Option<Seq<char>> {
    match o {
        Some(s) => Some(s@),
        None => None,
    }
}

impl View for CliOptions {
    type V = CliOptionsView;

    open spec fn view(&self) -> CliOptionsView {
        CliOptionsView {
            pattern: opt_view(self.pattern),
            root: self.root@,
            glob: opt_view(self.glob),
            max_results: self.max_results,
            ignore_case: self.ignore_case,
            json: self.json,
            csv: self.csv,
            output_path: opt_view(self.output_path),
            count: self.count,
            files_with_matches: self.files_with_matches,
            fixed_strings: self.fixed_strings,
            ast_mode: self.ast_mode,
            before_context: self.before_context,
            after_context: self.after_context,
        }
    }
}

/// Why a command line is refused.
#[derive(Clone, Debug)]
pub enum CliError {
    NoArguments,
    MissingValue(ValueFlag),
    UnknownFlag(String),
    UnexpectedPositional(String),
    MissingPattern,
    ExclusiveFormats,
    ExclusiveModes,
    OutputWithoutCsv,
    AstWithCountModes,
}

/// The value of a [`CliError`].
pub enum CliErrorView {
    NoArguments,
    MissingValue(ValueFlag),
    UnknownFlag(Seq<char>),
    UnexpectedPositional(Seq<char>),
    MissingPattern,
    ExclusiveFormats,
    ExclusiveModes,
    OutputWithoutCsv,
    AstWithCountModes,
}

impl View for CliError {
    type V = CliErrorView;

    open spec fn view(&self) -> CliErrorView {
        match self {
            CliError::NoArguments => CliErrorView::NoArguments,
            CliError::MissingValue(f) => CliErrorView::MissingValue(*f),
            CliError::UnknownFlag(a) => CliErrorView::UnknownFlag(a@),
            CliError::UnexpectedPositional(a) => CliErrorView::UnexpectedPositional(a@),
            CliError::MissingPattern => CliErrorView::MissingPattern,
            CliError::ExclusiveFormats => CliErrorView::ExclusiveFormats,
            CliError::ExclusiveModes => CliErrorView::ExclusiveModes,
            CliError::OutputWithoutCsv => CliErrorView::OutputWithoutCsv,
            CliError::AstWithCountModes => CliErrorView::AstWithCountModes,
        }
    }
}

/// The options before any argument is read: no pattern, root `.`, every
/// flag off and no context.
pub open spec fn default_options() -> CliOptionsView {
    CliOptionsView {
        pattern: None,
        root: "."@,
        glob: None,
        max_results: None,
        ignore_case: false,
        json: false,
        csv: false,
        output_path: None,
        count: false,
        files_with_matches: false,
        fixed_strings: false,
        ast_mode: None,
        before_context: 0,
        after_context: 0,
    }
}

/// A context size read from `v`; one that does not read as a number is none.
pub open spec fn context_size(v: Seq<char>) -> usize {
    match parse_usize_spec(v) {
        Some(n) => n,
        None => 0,
    }
}

/// The options after a value flag with value `v`.
pub open spec fn apply_value(st: CliOptionsView, f: ValueFlag, v: Seq<char>) -> CliOptionsView {
    match f {
        ValueFlag::Glob => CliOptionsView { glob: Some(v), ..st },
        ValueFlag::Limit => CliOptionsView { max_results: parse_usize_spec(v), ..st },
        ValueFlag::Output => CliOptionsView { output_path: Some(v), ..st },
        ValueFlag::Root => CliOptionsView { root: v, ..st },
        ValueFlag::Context => CliOptionsView {
            before_context: context_size(v),
            after_context: context_size(v),
            ..st
        },
        ValueFlag::BeforeContext => CliOptionsView { before_context: context_size(v), ..st },
        ValueFlag::AfterContext => CliOptionsView { after_context: context_size(v), ..st },
    }
}

/// The options after a switch.
pub open spec fn apply_switch(st: CliOptionsView, s: SwitchFlag) -> CliOptionsView {
    match s {
        SwitchFlag::IgnoreCase => CliOptionsView { ignore_case: true, ..st },
        SwitchFlag::Json => CliOptionsView { json: true, ..st },
        SwitchFlag::Csv => CliOptionsView { csv: true, ..st },
        SwitchFlag::Count => CliOptionsView { count: true, ..st },
        SwitchFlag::FilesWithMatches => CliOptionsView { files_with_matches: true, ..st },
        SwitchFlag::FixedStrings => CliOptionsView { fixed_strings: true, ..st },
        SwitchFlag::Functions => CliOptionsView { ast_mode: Some(AstQueryType::Function), ..st },
        SwitchFlag::Classes => CliOptionsView { ast_mode: Some(AstQueryType::Class), ..st },
        SwitchFlag::Imports => CliOptionsView { ast_mode: Some(AstQueryType::Import), ..st },
    }
}

/// Whether two paths are equal as `Path` compares them (component by component).
pub uninterp spec fn paths_equal(a: Seq<char>, b: Seq<char>) -> bool;

/// Calls `<Path as PartialEq>::eq` on the two paths. Claimed: the answer is
/// `paths_equal` of the two strings, and equal strings are equal paths.
#[verifier::external_body]
fn same_path(a: &str, b: &str) -> (r: bool)
    ensures
        r == paths_equal(a@, b@),
        a@ == b@ ==> r,
{
    std::path::Path::new(a) == std::path::Path::new(b)
}

/// Reads the arguments from position `i` on: flags set options (a value
/// flag takes the next argument), the first positional argument is the
/// pattern, the second the root while the root is still `.`; anything
/// else is refused.
pub open spec fn scan(args: Seq<Seq<char>>, i: int, st: CliOptionsView) -> Result<
    CliOptionsView,
    CliErrorView,
>
    decreases args.len() - i,
{
    if i < 0 || i >= args.len() {
        Ok(st)
    } else {
        let a = args[i];
        match arg_kind(a) {
            ArgKind::Value(f) => if i + 1 >= args.len() {
                Err(CliErrorView::MissingValue(f))
            } else {
                scan(args, i + 2, apply_value(st, f, args[i + 1]))
            },
            ArgKind::Switch(s) => scan(args, i + 1, apply_switch(st, s)),
            ArgKind::Unknown => Err(CliErrorView::UnknownFlag(a)),
            ArgKind::Positional => if st.pattern is None {
                scan(args, i + 1, CliOptionsView { pattern: Some(a), ..st })
            } else if paths_equal(st.root, "."@) {
                scan(args, i + 1, CliOptionsView { root: a, ..st })
            } else {
                Err(CliErrorView::UnexpectedPositional(a))
            },
        }
    }
}

/// The checks on the gathered options: a pattern is needed; `--json` and
/// `--csv` exclude each other, as do `--count` and `--files-with-matches`;
/// `--output` needs `--csv`; structural search takes neither counting mode.
pub open spec fn check_options(st: CliOptionsView) -> Result<CliOptionsView, CliErrorView> {
    if st.pattern is None {
        Err(CliErrorView::MissingPattern)
    } else if st.json && st.csv {
        Err(CliErrorView::ExclusiveFormats)
    } else if st.count && st.files_with_matches {
        Err(CliErrorView::ExclusiveModes)
    } else if st.output_path is Some && !st.csv {
        Err(CliErrorView::OutputWithoutCsv)
    } else if (st.count || st.files_with_matches) && st.ast_mode is Some {
        Err(CliErrorView::AstWithCountModes)
    } else {
        Ok(st)
    }
}

/// What a whole command line gives.
pub open spec fn parse_args_spec(args: Seq<Seq<char>>) -> Result<CliOptionsView, CliErrorView> {
    if args.len() == 0 {
        Err(CliErrorView::NoArguments)
    } else {
        match scan(args, 0, default_options()) {
            Ok(st) => check_options(st),
            Err(e) => Err(e),
        }
    }
}

/// The characters of each argument.
pub open spec fn args_view(args: Seq<String>) -> Seq<Seq<char>> {
    args.map_values(|a: String| a@)
}

/// The view of a parse result.
pub open spec fn parse_result_view(r: Result<CliOptions, CliError>) -> Result<CliOptionsView, CliErrorView> {
    match r {
        Ok(o) => Ok(o@),
        Err(e) => Err(e@),
    }
}

fn set_value(st: &mut CliOptions, f: ValueFlag, v: &String)
    ensures
        final(st)@ == apply_value(old(st)@, f, v@),
{
    match f {
        ValueFlag::Glob => st.glob = Some(v.clone()),
        ValueFlag::Limit => st.max_results = parse_usize(v.as_str()),
        ValueFlag::Output => st.output_path = Some(v.clone()),
        ValueFlag::Root => st.root = v.clone(),
        ValueFlag::Context => {
            let n = match parse_usize(v.as_str()) {
                Some(n) => n,
                None => 0,
            };
            st.before_context = n;
            st.after_context = n;
        },
        ValueFlag::BeforeContext => {
            st.before_context = match parse_usize(v.as_str()) {
                Some(n) => n,
                None => 0,
            };
        },
        ValueFlag::AfterContext => {
            st.after_context = match parse_usize(v.as_str()) {
                Some(n) => n,
                None => 0,
            };
        },
    }
}

fn set_switch(st: &mut CliOptions, s: SwitchFlag)
    ensures
        final(st)@ == apply_switch(old(st)@, s),
{
    match s {
        SwitchFlag::IgnoreCase => st.ignore_case = true,
        SwitchFlag::Json => st.json = true,
        SwitchFlag::Csv => st.csv = true,
        SwitchFlag::Count => st.count = true,
        SwitchFlag::FilesWithMatches => st.files_with_matches = true,
        SwitchFlag::FixedStrings => st.fixed_strings = true,
        SwitchFlag::Functions => st.ast_mode = Some(AstQueryType::Function),
        SwitchFlag::Classes => st.ast_mode = Some(AstQueryType::Class),
        SwitchFlag::Imports => st.ast_mode = Some(AstQueryType::Import),
    }
}

/// Reads the command-line arguments (without the program name) into
/// options, or says why they are refused.
pub fn parse_args(args: &[String]) -> (r: Result<CliOptions, CliError>)
    ensures
        parse_result_view(r) == parse_args_spec(args_view(args@)),
{
    let ghost av = args_view(args@);
    if args.len() == 0 {
        return Err(CliError::NoArguments);
    }
    let mut st = CliOptions {
        pattern: None,
        root: ".".to_string(),
        glob: None,
        max_results: None,
        ignore_case: false,
        json: false,
        csv: false,
        output_path: None,
        count: false,
        files_with_matches: false,
        fixed_strings: false,
        ast_mode: None,
        before_context: 0,
        after_context: 0,
    };
    let mut i: usize = 0;
    while i < args.len()
        invariant
            av == args_view(args@),
            i <= args@.len(),
            scan(av, 0, default_options()) == scan(av, i as int, st@),
        decreases args@.len() - i,
    {
        assert(av[i as int] == args@[i as int]@);
        match classify_arg(args[i].as_str()) {
            ArgKind::Value(f) => {
                if i + 1 >= args.len() {
                    return Err(CliError::MissingValue(f));
                }
                assert(av[i + 1] == args@[i + 1]@);
                set_value(&mut st, f, &args[i + 1]);
                i = i + 2;
            },
            ArgKind::Switch(s) => {
                set_switch(&mut st, s);
                i = i + 1;
            },
            ArgKind::Unknown => {
                return Err(CliError::UnknownFlag(args[i].clone()));
            },
            ArgKind::Positional => {
                if st.pattern.is_none() {
                    st.pattern = Some(args[i].clone());
                } else if same_path(st.root.as_str(), ".") {
                    st.root = args[i].clone();
                } else {
                    return Err(CliError::UnexpectedPositional(args[i].clone()));
                }
                i = i + 1;
            },
        }
    }
    if st.pattern.is_none() {
        return Err(CliError::MissingPattern);
    }
    if st.json && st.csv {
        return Err(CliError::ExclusiveFormats);
    }
    if st.count && st.files_with_matches {
        return Err(CliError::ExclusiveModes);
    }
    if st.output_path.is_some() && !st.csv {
        return Err(CliError::OutputWithoutCsv);
    }
    if (st.count || st.files_with_matches) && st.ast_mode.is_some() {
        return Err(CliError::AstWithCountModes);
    }
    Ok(st)
}

/// Accepted options are consistent: there is a pattern, at most one of
/// `--json` and `--csv`, at most one of `--count` and
/// `--files-with-matches`, `--output` only with `--csv`, and structural
/// search only without a counting mode.
pub proof fn accepted_options_are_consistent(args: Seq<Seq<char>>)
    requires
        parse_args_spec(args) is Ok,
    ensures
        ({
            let st = parse_args_spec(args)->Ok_0;
            &&& st.pattern is Some
            &&& !(st.json && st.csv)
            &&& !(st.count && st.files_with_matches)
            &&& st.output_path is Some ==> st.csv
            &&& st.ast_mode is Some ==> !(st.count || st.files_with_matches)
        }),
{
}

/// What a command line asks to run.
#[derive(Clone, Copy, Debug, PartialEq, Eq)]
pub enum CliMode {
    Count,
    FilesWithMatches,
    Ast(AstQueryType),
    Context,
    Search,
}

/// The mode the options select: counting modes first, then structural
/// search, then a search with context when any context is asked for.
pub open spec fn mode_spec(st: CliOptionsView) -> CliMode {
    if st.count {
        CliMode::Count
    } else if st.files_with_matches {
        CliMode::FilesWithMatches
    } else if st.ast_mode is Some {
        CliMode::Ast(st.ast_mode->Some_0)
    } else if st.before_context > 0 || st.after_context > 0 {
        CliMode::Context
    } else {
        CliMode::Search
    }
}

/// Which mode the flags select: `--count` selects counting and nothing
/// else does; `--files-with-matches` without `--count` selects the list of
/// matching files; otherwise a structural query selects structural search;
/// otherwise any context asked for selects a context search; otherwise a
/// plain search.
pub proof fn mode_follows_the_flags(st: CliOptionsView)
    ensures
        (mode_spec(st) == CliMode::Count) == st.count,
        (mode_spec(st) == CliMode::FilesWithMatches) == (st.files_with_matches && !st.count),
        (mode_spec(st) is Ast) == (!st.count && !st.files_with_matches && st.ast_mode is Some),
        mode_spec(st) is Ast ==> Some(mode_spec(st)->Ast_0) == st.ast_mode,
        (mode_spec(st) == CliMode::Context) == (!st.count && !st.files_with_matches && st.ast_mode
            is None && (st.before_context > 0 || st.after_context > 0)),
        (mode_spec(st) == CliMode::Search) == (!st.count && !st.files_with_matches && st.ast_mode
            is None && st.before_context == 0 && st.after_context == 0),
{
}

/// On an accepted command line each counting flag selects its own mode:
/// the mode is counting exactly when `--count` was given, and the list of
/// matching files exactly when `--files-with-matches` was given.
pub proof fn accepted_counting_flags_select_their_mode(args: Seq<Seq<char>>)
    requires
        parse_args_spec(args) is Ok,
    ensures
        ({
            let st = parse_args_spec(args)->Ok_0;
            &&& (mode_spec(st) == CliMode::Count) == st.count
            &&& (mode_spec(st) == CliMode::FilesWithMatches) == st.files_with_matches
        }),
{
    accepted_options_are_consistent(args);
    mode_follows_the_flags(parse_args_spec(args)->Ok_0);
}

/// The long spelling of a value flag.
pub open spec fn long_name(f: ValueFlag) -> Seq<char> {
    match f {
        ValueFlag::Glob => "--glob"@,
        ValueFlag::Limit => "--limit"@,
        ValueFlag::Output => "--output"@,
        ValueFlag::Root => "--root"@,
        ValueFlag::Context => "--context"@,
        ValueFlag::BeforeContext => "--before-context"@,
        ValueFlag::AfterContext => "--after-context"@,
    }
}

/// The message that reports a refused command line (empty when only the
/// usage is shown).
pub open spec fn message_spec(e: CliErrorView) -> Seq<char> {
    match e {
        CliErrorView::NoArguments => Seq::empty(),
        CliErrorView::MissingValue(f) => "Missing value for "@ + long_name(f),
        CliErrorView::UnknownFlag(a) => "Unknown flag: "@ + a,
        CliErrorView::UnexpectedPositional(a) => "Unexpected positional argument: "@ + a,
        CliErrorView::MissingPattern => "Missing search pattern"@,
        CliErrorView::ExclusiveFormats => "Error: --json, --csv are mutually exclusive"@,
        CliErrorView::ExclusiveModes => "Error: --count, --files-with-matches are mutually exclusive"@,
        CliErrorView::OutputWithoutCsv => "Error: --output is only supported with --csv"@,
        CliErrorView::AstWithCountModes => "Error: AST search does not support --count or --files-with-matches"@,
    }
}

fn long_flag_name(f: ValueFlag) -> (r: &'static str)
    ensures
        r@ == long_name(f),
{
    match f {
        ValueFlag::Glob => "--glob",
        ValueFlag::Limit => "--limit",
        ValueFlag::Output => "--output",
        ValueFlag::Root => "--root",
        ValueFlag::Context => "--context",
        ValueFlag::BeforeContext => "--before-context",
        ValueFlag::AfterContext => "--after-context",
    }
}

impl CliError {
    /// The message that reports this refusal.
    pub fn message(&self) -> (r: String)
        ensures
            r@ == message_spec(self@),
    {
        match self {
            CliError::NoArguments => String::new(),
            CliError::MissingValue(f) => {
                let mut m = "Missing value for ".to_string();
                m.append(long_flag_name(*f));
                m
            },
            CliError::UnknownFlag(a) => {
                let mut m = "Unknown flag: ".to_string();
                m.append(a.as_str());
                m
            },
            CliError::UnexpectedPositional(a) => {
                let mut m = "Unexpected positional argument: ".to_string();
                m.append(a.as_str());
                m
            },
            CliError::MissingPattern => "Missing search pattern".to_string(),
            CliError::ExclusiveFormats => "Error: --json, --csv are mutually exclusive".to_string(),
            CliError::ExclusiveModes => "Error: --count, --files-with-matches are mutually exclusive".to_string(),
            CliError::OutputWithoutCsv => "Error: --output is only supported with --csv".to_string(),
            CliError::AstWithCountModes => "Error: AST search does not support --count or --files-with-matches".to_string(),
        }
    }

    /// Whether the usage text follows the message.
    pub fn shows_usage(&self) -> (r: bool)
        ensures
            r == (self is NoArguments || self is UnknownFlag || self is UnexpectedPositional
                || self is MissingPattern),
    {
        match self {
            CliError::NoArguments | CliError::UnknownFlag(_) | CliError::UnexpectedPositional(_)
            | CliError::MissingPattern => true,
            _ => false,
        }
    }
}

impl CliOptions {
    /// The mode these options select.
    pub fn mode(&self) -> (r: CliMode)
        ensures
            r == mode_spec(self@),
    {
        if self.count {
            CliMode::Count
        } else if self.files_with_matches {
            CliMode::FilesWithMatches
        } else if let Some(q) = self.ast_mode {
            CliMode::Ast(q)
        } else if self.before_context > 0 || self.after_context > 0 {
            CliMode::Context
        } else {
            CliMode::Search
        }
    }

    /// The search configuration these options describe; the result limit
    /// applies only outside the counting modes.
    pub fn search_config(&self) -> (c: SearchConfig)
        requires
            self.pattern is Some,
        ensures
            c.pattern@ == self.pattern->Some_0@,
            c.root@ == self.root@,
            opt_view(c.glob) == opt_view(self.glob),
            c.max_results == if self.count || self.files_with_matches {
                None
            } else {
                self.max_results
            },
            c.ignore_case == self.ignore_case,
            c.fixed_strings == self.fixed_strings,
            !c.byte_offset,
    {
        let pattern = match &self.pattern {
            Some(p) => p.clone(),
            None => String::new(),
        };
        let mut config = SearchConfig::new(pattern, self.root.clone());
        config.glob = self.glob.clone();
        config.ignore_case = self.ignore_case;
        config.fixed_strings = self.fixed_strings;
        if !(self.count || self.files_with_matches) {
            config.max_results = self.max_results;
        }
        config
    }

    /// The context search configuration these options describe.
    pub fn context_config(&self) -> (c: ContextConfig)
        requires
            self.pattern is Some,
        ensures
            c.base.pattern@ == self.pattern->Some_0@,
            c.base.root@ == self.root@,
            opt_view(c.base.glob) == opt_view(self.glob),
            c.base.ignore_case == self.ignore_case,
            c.base.fixed_strings == self.fixed_strings,
            c.before_context == self.before_context,
            c.after_context == self.after_context,
    {
        ContextConfig {
            base: self.search_config(),
            before_context: self.before_context,
            after_context: self.after_context,
        }
    }
}

} // verus!
