use pyfastgrep::context::{ContextLine, SearchHitWithContext};
use pyfastgrep::output::{
    build_config, check_output_modes, context_hit_lines, context_report, count_line, plain_line, trim_hit_contents,
    OutputMode, StreamFormat, StreamItem, StreamStep,
};
use pyfastgrep::SearchHit;

fn hit(content: &str) -> SearchHit {
    SearchHit { file: "a,b.rs".to_string(), line: 7, byte_offset: None, content: content.to_string() }
}

#[test]
fn build_config_defaults_flags_off() {
    let c = build_config("p".into(), "r".into(), Some("*.rs".into()), Some(3), None, Some(true), None);
    assert_eq!(c.pattern, "p");
    assert_eq!(c.root, "r");
    assert_eq!(c.glob.as_deref(), Some("*.rs"));
    assert_eq!(c.max_results, Some(3));
    assert!(!c.ignore_case && c.fixed_strings && !c.byte_offset);
}

#[test]
fn output_mode_choice() {
    assert_eq!(check_output_modes(None, None, false), Ok(OutputMode::Tuples));
    assert_eq!(check_output_modes(Some(true), None, false), Ok(OutputMode::Json));
    assert_eq!(check_output_modes(None, Some(true), true), Ok(OutputMode::Csv));
    assert_eq!(
        check_output_modes(Some(true), Some(true), false),
        Err("json and csv output modes are mutually exclusive".to_string())
    );
    assert_eq!(
        check_output_modes(Some(true), Some(false), true),
        Err("output_path is only supported with csv output".to_string())
    );
}

#[test]
fn stream_emits_csv_header_once() {
    let mut s = StreamFormat::new(OutputMode::Csv);
    assert!(matches!(s.next_step(), StreamStep::Header(ref h) if h == "file,line,content\n"));
    assert!(matches!(s.next_step(), StreamStep::Receive));
    assert!(matches!(s.next_step(), StreamStep::Receive));
    assert!(matches!(s.render(&hit("x, y  \n")), StreamItem::Csv(ref r) if r == "\"a,b.rs\",7,\"x, y\"\n"));
}

#[test]
fn stream_json_and_tuples() {
    let mut s = StreamFormat::new(OutputMode::Json);
    assert!(matches!(s.next_step(), StreamStep::Receive));
    match s.render(&hit("text \n")) {
        StreamItem::Json(h) => assert_eq!(h.content, "text"),
        _ => panic!("expected json"),
    }
    let t = StreamFormat::new(OutputMode::Tuples);
    match t.render(&hit("text \n")) {
        StreamItem::Tuple(f, l, c) => assert_eq!((f.as_str(), l, c.as_str()), ("a,b.rs", 7, "text \n")),
        _ => panic!("expected tuple"),
    }
}

#[test]
fn trimming_for_json() {
    let hits = vec![hit("a  \n"), hit("b")];
    let t = trim_hit_contents(&hits);
    assert_eq!(t[0].content, "a");
    assert_eq!(t[1].content, "b");
    assert_eq!(t[0].file, "a,b.rs");
}

#[test]
fn plain_lines() {
    assert_eq!(plain_line("src/a.rs", ':', 12, "fn x()  \n"), "src/a.rs:12: fn x()");
    assert_eq!(count_line("src/a.rs", 4), "src/a.rs:4");
}

#[test]
fn context_block_lines() {
    let h = SearchHitWithContext {
        file: "f".to_string(),
        line: 3,
        content: "m\n".to_string(),
        before_context: vec![ContextLine { line: 2, content: "b\n".to_string() }],
        after_context: vec![ContextLine { line: 4, content: "a\n".to_string() }],
    };
    assert_eq!(context_hit_lines(&h), vec!["f-2- b".to_string(), "f:3: m".to_string(), "f-4- a".to_string()]);
}

#[test]
fn context_report_separates_blocks() {
    let mk = |line: usize| SearchHitWithContext {
        file: "f".to_string(),
        line,
        content: "m".to_string(),
        before_context: vec![],
        after_context: vec![],
    };
    assert!(context_report(&[]).is_empty());
    assert_eq!(context_report(&[mk(1)]), vec!["f:1: m".to_string()]);
    assert_eq!(
        context_report(&[mk(1), mk(5)]),
        vec!["f:1: m".to_string(), "--".to_string(), "f:5: m".to_string()]
    );
}

#[test]
fn streamed_csv_equals_batch_csv() {
    let hits = vec![hit("one \n"), hit("two, three\n")];
    let mut s = StreamFormat::new(OutputMode::Csv);
    let mut text = String::new();
    if let StreamStep::Header(h) = s.next_step() {
        text.push_str(&h);
    }
    for h in &hits {
        assert!(matches!(s.next_step(), StreamStep::Receive));
        if let StreamItem::Csv(row) = s.render(h) {
            text.push_str(&row);
        }
    }
    assert_eq!(text, pyfastgrep::csv::hits_to_csv(&hits));
}
