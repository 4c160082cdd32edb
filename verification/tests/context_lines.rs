use pyfastgrep::context::{context_hits, search_with_context, CollectedFile, CollectedLine, ContextConfig};
use pyfastgrep::matcher::build_matcher;
use pyfastgrep::search::{hits_from_lines, search_file};
use pyfastgrep::SearchConfig;

fn line(n: usize, text: &str, is_match: bool) -> CollectedLine {
    CollectedLine { line_number: n, content: text.to_string(), is_match }
}

fn sample() -> Vec<CollectedLine> {
    vec![
        line(1, "a", false),
        line(2, "b", false),
        line(3, "MATCH1", true),
        line(4, "c", false),
        line(5, "MATCH2", true),
        line(6, "d", false),
        line(7, "e", false),
    ]
}

#[test]
fn one_hit_per_match_with_bounded_context() {
    let hits = context_hits("f.rs", &sample(), 2, 2);
    assert_eq!(hits.len(), 2);
    let h0 = &hits[0];
    assert_eq!((h0.file.as_str(), h0.line, h0.content.as_str()), ("f.rs", 3, "MATCH1"));
    assert_eq!(h0.before_context.iter().map(|c| c.line).collect::<Vec<_>>(), vec![1, 2]);
    assert_eq!(h0.after_context.iter().map(|c| c.line).collect::<Vec<_>>(), vec![4]);
    let h1 = &hits[1];
    assert_eq!(h1.line, 5);
    assert_eq!(h1.before_context.iter().map(|c| c.line).collect::<Vec<_>>(), vec![4]);
    assert_eq!(h1.after_context.iter().map(|c| c.content.as_str()).collect::<Vec<_>>(), vec!["d", "e"]);
}

#[test]
fn context_is_capped() {
    let hits = context_hits("f", &sample(), 1, 1);
    assert_eq!(hits[0].before_context.len(), 1);
    assert_eq!(hits[0].before_context[0].line, 2);
    assert_eq!(hits[1].after_context.len(), 1);
    assert_eq!(hits[1].after_context[0].line, 6);
}

#[test]
fn no_context_when_none_asked() {
    let hits = context_hits("f", &sample(), 0, 0);
    assert_eq!(hits.len(), 2);
    assert!(hits.iter().all(|h| h.before_context.is_empty() && h.after_context.is_empty()));
}

#[test]
fn adjacent_matches_have_no_context_between() {
    let lines = vec![line(1, "M", true), line(2, "M", true)];
    let hits = context_hits("f", &lines, 5, 5);
    assert!(hits[0].after_context.is_empty());
    assert!(hits[1].before_context.is_empty());
    assert!(context_hits("f", &[], 3, 3).is_empty());
}

#[test]
fn search_with_context_filters_by_glob() {
    let mut base = SearchConfig::new("MATCH".to_string(), ".".to_string());
    base.glob = Some("*.rs".to_string());
    let config = ContextConfig { base, before_context: 1, after_context: 0 };
    let files = vec![
        CollectedFile { path: "a.rs".to_string(), lines: sample() },
        CollectedFile { path: "a.py".to_string(), lines: sample() },
    ];
    let hits = search_with_context(&config, &files).unwrap();
    assert_eq!(hits.len(), 2);
    assert!(hits.iter().all(|h| h.file == "a.rs"));
    assert!(hits.iter().all(|h| h.after_context.is_empty()));
    let mut bad = config.clone();
    bad.base.pattern = "(".to_string();
    assert!(search_with_context(&bad, &files).is_err());
}

#[test]
fn zero_context_hits_are_the_plain_hits() {
    let text = "a\nb\nMATCH1\nc\nMATCH2\nd\ne\n";
    let m = build_matcher("MATCH", false, false).unwrap();
    let plain = search_file("f.rs", &Some(text.as_bytes().to_vec()), &m);
    let lines: Vec<CollectedLine> = text
        .lines()
        .enumerate()
        .map(|(i, l)| line(i + 1, &format!("{}\n", l), l.contains("MATCH")))
        .collect();
    let hits = context_hits("f.rs", &lines, 0, 0);
    assert_eq!(hits.len(), plain.len());
    for (c, p) in hits.iter().zip(plain.iter()) {
        assert_eq!((&c.file, c.line, &c.content), (&p.file, p.line, &p.content));
        assert!(c.before_context.is_empty() && c.after_context.is_empty());
    }
    let found = vec![(3u64, "MATCH1\n".to_string()), (5u64, "MATCH2\n".to_string())];
    let from_found = hits_from_lines("f.rs", &found);
    assert_eq!(from_found.iter().map(|h| h.line).collect::<Vec<_>>(), vec![3, 5]);
}

#[test]
fn context_search_ignores_the_limit() {
    let base = SearchConfig::new("MATCH".to_string(), ".".to_string());
    let mut limited = base.clone();
    limited.max_results = Some(1);
    let files = vec![
        CollectedFile { path: "a.rs".to_string(), lines: sample() },
        CollectedFile { path: "b.rs".to_string(), lines: sample() },
    ];
    let all = search_with_context(&ContextConfig { base, before_context: 1, after_context: 1 }, &files).unwrap();
    let lim = search_with_context(&ContextConfig { base: limited, before_context: 1, after_context: 1 }, &files).unwrap();
    assert_eq!(all.len(), 4);
    assert_eq!(lim.len(), 4);
    for (x, y) in all.iter().zip(lim.iter()) {
        assert_eq!((&x.file, x.line), (&y.file, y.line));
    }
}
