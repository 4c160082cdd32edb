use pyfastgrep::ast::AstQueryType;
use pyfastgrep::cli::{parse_args, parse_usize, CliError, CliMode, ValueFlag};

fn args(list: &[&str]) -> Vec<String> {
    list.iter().map(|s| s.to_string()).collect()
}

#[test]
fn parses_pattern_root_and_flags() {
    let o = parse_args(&args(&["fn", "src", "--glob", "*.rs", "-i", "-n", "5", "-F"])).unwrap();
    assert_eq!(o.pattern.as_deref(), Some("fn"));
    assert_eq!(o.root, "src");
    assert_eq!(o.glob.as_deref(), Some("*.rs"));
    assert!(o.ignore_case && o.fixed_strings);
    assert_eq!(o.max_results, Some(5));
    assert_eq!(o.mode(), CliMode::Search);
    let c = o.search_config();
    assert_eq!(c.pattern, "fn");
    assert_eq!(c.root, "src");
    assert_eq!(c.max_results, Some(5));
}

#[test]
fn default_root_is_dot() {
    let o = parse_args(&args(&["x"])).unwrap();
    assert_eq!(o.root, ".");
}

#[test]
fn short_c_is_count() {
    let o = parse_args(&args(&["fn", "-c"])).unwrap();
    assert!(o.count);
    assert_eq!(o.mode(), CliMode::Count);
    let o = parse_args(&args(&["fn", "-c", "--limit", "3"])).unwrap();
    assert_eq!(o.search_config().max_results, None);
}

#[test]
fn bad_limit_means_no_limit() {
    let o = parse_args(&args(&["fn", "--limit", "lots"])).unwrap();
    assert_eq!(o.max_results, None);
}

#[test]
fn refusals() {
    assert!(matches!(parse_args(&[]), Err(CliError::NoArguments)));
    assert!(matches!(parse_args(&args(&["fn", "--glob"])), Err(CliError::MissingValue(ValueFlag::Glob))));
    assert!(matches!(parse_args(&args(&["fn", "--nope"])), Err(CliError::UnknownFlag(ref f)) if f == "--nope"));
    assert!(matches!(parse_args(&args(&["a", "b", "c"])), Err(CliError::UnexpectedPositional(ref f)) if f == "c"));
    assert!(matches!(parse_args(&args(&["--json"])), Err(CliError::MissingPattern)));
    assert!(matches!(parse_args(&args(&["a", "--json", "--csv"])), Err(CliError::ExclusiveFormats)));
    assert!(matches!(parse_args(&args(&["a", "-c", "-l"])), Err(CliError::ExclusiveModes)));
    assert!(matches!(parse_args(&args(&["a", "-o", "out.csv"])), Err(CliError::OutputWithoutCsv)));
    assert!(matches!(parse_args(&args(&["a", "--functions", "-c"])), Err(CliError::AstWithCountModes)));
}

#[test]
fn refusal_messages() {
    assert_eq!(parse_args(&args(&["fn", "-g"])).unwrap_err().message(), "Missing value for --glob");
    assert_eq!(parse_args(&args(&["fn", "-x"])).unwrap_err().message(), "Unknown flag: -x");
    assert_eq!(
        parse_args(&args(&["a", "b", "c"])).unwrap_err().message(),
        "Unexpected positional argument: c"
    );
    assert_eq!(
        parse_args(&args(&["a", "--json", "--csv"])).unwrap_err().message(),
        "Error: --json, --csv are mutually exclusive"
    );
    assert_eq!(
        parse_args(&args(&["a", "-c", "-l"])).unwrap_err().message(),
        "Error: --count, --files-with-matches are mutually exclusive"
    );
    assert_eq!(
        parse_args(&args(&["a", "--output", "x"])).unwrap_err().message(),
        "Error: --output is only supported with --csv"
    );
    assert_eq!(
        parse_args(&args(&["a", "--imports", "-l"])).unwrap_err().message(),
        "Error: AST search does not support --count or --files-with-matches"
    );
    assert!(parse_args(&args(&["a", "-x"])).unwrap_err().shows_usage());
    assert!(!parse_args(&args(&["a", "-c", "-l"])).unwrap_err().shows_usage());
    assert_eq!(CliError::NoArguments.message(), "");
}

#[test]
fn ast_modes() {
    assert_eq!(parse_args(&args(&["main", "--functions"])).unwrap().mode(), CliMode::Ast(AstQueryType::Function));
    assert_eq!(parse_args(&args(&["C", "--classes"])).unwrap().mode(), CliMode::Ast(AstQueryType::Class));
    assert_eq!(parse_args(&args(&["os", "--imports"])).unwrap().mode(), CliMode::Ast(AstQueryType::Import));
}

#[test]
fn context_flags() {
    let o = parse_args(&args(&["fn", "--context", "2"])).unwrap();
    assert_eq!((o.before_context, o.after_context), (2, 2));
    assert_eq!(o.mode(), CliMode::Context);
    let o = parse_args(&args(&["fn", "-A", "3", "-B", "1"])).unwrap();
    assert_eq!((o.before_context, o.after_context), (1, 3));
    let c = o.context_config();
    assert_eq!((c.before_context, c.after_context), (1, 3));
    let o = parse_args(&args(&["fn", "-C", "0"])).unwrap();
    assert_eq!(o.mode(), CliMode::Search);
}

#[test]
fn root_flag_and_positional_root() {
    let o = parse_args(&args(&["fn", "--root", "lib"])).unwrap();
    assert_eq!(o.root, "lib");
    assert!(matches!(parse_args(&args(&["fn", "--root", "lib", "src"])), Err(CliError::UnexpectedPositional(_))));
    let o = parse_args(&args(&["fn", "--root", "./", "src"])).unwrap();
    assert_eq!(o.root, "src");
}

#[test]
fn csv_with_output() {
    let o = parse_args(&args(&["fn", "--csv", "-o", "r.csv"])).unwrap();
    assert!(o.csv);
    assert_eq!(o.output_path.as_deref(), Some("r.csv"));
}

#[test]
fn usize_parsing() {
    assert_eq!(parse_usize("0"), Some(0));
    assert_eq!(parse_usize("+42"), Some(42));
    assert_eq!(parse_usize("007"), Some(7));
    assert_eq!(parse_usize(""), None);
    assert_eq!(parse_usize("+"), None);
    assert_eq!(parse_usize("-1"), None);
    assert_eq!(parse_usize("1_000"), None);
    assert_eq!(parse_usize(" 1"), None);
    assert_eq!(parse_usize(&usize::MAX.to_string()), Some(usize::MAX));
    assert_eq!(parse_usize("99999999999999999999999"), None);
    for s in ["12", "+3", "x", "", "18446744073709551616"] {
        assert_eq!(parse_usize(s), s.parse::<usize>().ok());
    }
}
