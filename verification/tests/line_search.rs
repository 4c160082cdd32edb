use pyfastgrep::matcher::{build_glob, build_matcher, path_passes};
use pyfastgrep::search::{
    collect_paths, count_matches_in_file, hits_from_lines, file_has_match, search, search_count, search_file,
    search_files_with_matches, SourceFile, WalkEntry,
};
use pyfastgrep::{SearchConfig, SearchHit};

fn file(path: &str, text: &str) -> SourceFile {
    SourceFile { path: path.to_string(), bytes: Some(text.as_bytes().to_vec()) }
}

fn config(pattern: &str) -> SearchConfig {
    SearchConfig::new(pattern.to_string(), ".".to_string())
}

#[test]
fn search_config_new_defaults() {
    let c = SearchConfig::new("fn".to_string(), "src".to_string());
    assert_eq!(c.pattern, "fn");
    assert_eq!(c.root, "src");
    assert!(c.glob.is_none());
    assert!(c.max_results.is_none());
    assert!(!c.ignore_case && !c.fixed_strings && !c.byte_offset);
}

#[test]
fn matcher_rejects_bad_regex_but_not_as_fixed_string() {
    assert!(build_matcher("(", false, false).is_err());
    assert!(build_matcher("(", false, true).is_ok());
    let err = search(&config("("), &[]).unwrap_err();
    assert!(!err.is_empty());
}

#[test]
fn glob_errors_and_matches() {
    assert!(build_glob(&Some("[a".to_string())).is_err());
    assert!(build_glob(&None).unwrap().is_none());
    let g = build_glob(&Some("*.rs".to_string())).unwrap();
    assert!(path_passes(&g, "src/main.rs"));
    assert!(!path_passes(&g, "src/main.py"));
    assert!(path_passes(&None, "anything"));
}

#[test]
fn collect_paths_keeps_files_passing_glob() {
    let entries = vec![
        WalkEntry { path: "src".to_string(), is_file: false },
        WalkEntry { path: "src/a.rs".to_string(), is_file: true },
        WalkEntry { path: "src/b.py".to_string(), is_file: true },
        WalkEntry { path: "src/c.rs".to_string(), is_file: true },
    ];
    let g = build_glob(&Some("*.rs".to_string())).unwrap();
    assert_eq!(collect_paths(&entries, &g), vec!["src/a.rs".to_string(), "src/c.rs".to_string()]);
    assert_eq!(collect_paths(&entries, &None).len(), 3);
}

#[test]
fn search_file_reports_matching_lines() {
    let m = build_matcher("fn", false, false).unwrap();
    let hits = search_file("a.rs", &Some(b"fn a() {}\nlet x = 1;\npub fn b() {}\n".to_vec()), &m);
    assert_eq!(hits.len(), 2);
    assert_eq!(hits[0].file, "a.rs");
    assert_eq!(hits[0].line, 1);
    assert_eq!(hits[0].content, "fn a() {}\n");
    assert_eq!(hits[1].line, 3);
    assert_eq!(hits[1].content, "pub fn b() {}\n");
    assert!(hits.iter().all(|h| h.byte_offset.is_none()));
}

#[test]
fn search_file_skips_missing_and_empty() {
    let m = build_matcher("", false, false).unwrap();
    assert!(search_file("gone", &None, &m).is_empty());
    assert!(search_file("empty", &Some(Vec::new()), &m).is_empty());
}

#[test]
fn case_and_fixed_string_options() {
    let files = vec![file("a.txt", "Hello\nhello\nh.llo\n")];
    let mut c = config("hello");
    assert_eq!(search(&c, &files).unwrap().len(), 1);
    c.ignore_case = true;
    assert_eq!(search(&c, &files).unwrap().len(), 2);
    let mut c = config("h.llo");
    assert_eq!(search(&c, &files).unwrap().len(), 2);
    c.fixed_strings = true;
    let hits = search(&c, &files).unwrap();
    assert_eq!(hits.len(), 1);
    assert_eq!(hits[0].line, 3);
}

#[test]
fn search_respects_glob_and_limit() {
    let files = vec![
        file("a.rs", "fn a\nfn b\n"),
        file("b.py", "fn c\n"),
        file("c.rs", "fn d\n"),
    ];
    let mut c = config("fn");
    assert_eq!(search(&c, &files).unwrap().len(), 4);
    c.glob = Some("*.rs".to_string());
    let hits = search(&c, &files).unwrap();
    assert_eq!(hits.len(), 3);
    assert!(hits.iter().all(|h| h.file.ends_with(".rs")));
    c.max_results = Some(2);
    let limited = search(&c, &files).unwrap();
    assert_eq!(limited.len(), 2);
    assert_eq!(limited[0].content, hits[0].content);
    assert_eq!(limited[1].content, hits[1].content);
    c.max_results = Some(10);
    assert_eq!(search(&c, &files).unwrap().len(), 3);
    c.max_results = Some(0);
    assert!(search(&c, &files).unwrap().is_empty());
}

#[test]
fn counting_agrees_with_searching() {
    let files = vec![
        file("a.rs", "x\nx\ny\n"),
        file("b.rs", "y\n"),
        file("c.rs", "x\n"),
        SourceFile { path: "d.rs".to_string(), bytes: None },
    ];
    let c = config("x");
    let counts = search_count(&c, &files).unwrap();
    assert_eq!(counts, vec![("a.rs".to_string(), 2), ("c.rs".to_string(), 1)]);
    let total: usize = counts.iter().map(|(_, n)| n).sum();
    assert_eq!(total, search(&c, &files).unwrap().len());
    let names = search_files_with_matches(&c, &files).unwrap();
    assert_eq!(names, counts.iter().map(|(f, _)| f.clone()).collect::<Vec<_>>());
}

#[test]
fn per_file_count_and_presence() {
    let m = build_matcher("a", false, false).unwrap();
    let bytes = Some(b"a\nb\naa\n".to_vec());
    assert_eq!(count_matches_in_file(&bytes, &m), 2);
    assert!(file_has_match(&bytes, &m));
    assert!(!file_has_match(&Some(b"b\n".to_vec()), &m));
    assert_eq!(count_matches_in_file(&None, &m), 0);
}

#[test]
fn invalid_utf8_match_stops_the_file() {
    let m = build_matcher("x", false, false).unwrap();
    let bytes = Some(b"x1\n\xffx\nx3\n".to_vec());
    let hits = search_file("f", &bytes, &m);
    assert_eq!(hits.len(), 1);
    assert_eq!(hits[0].line, 1);
}

#[test]
fn setup_errors_come_in_order() {
    let mut c = config("(");
    c.glob = Some("[a".to_string());
    let regex_err = build_matcher("(", false, false).err().unwrap();
    assert_eq!(search(&c, &[]).unwrap_err(), regex_err);
    let mut c = config("ok");
    c.glob = Some("[a".to_string());
    let glob_err = build_glob(&c.glob).err().unwrap();
    assert_eq!(search_count(&c, &[]).unwrap_err(), glob_err);
    assert_eq!(search_files_with_matches(&c, &[]).unwrap_err(), glob_err);
}

#[test]
fn hits_from_lines_keeps_order_and_numbers() {
    let lines = vec![(4u64, "a\n".to_string()), (9u64, "b".to_string())];
    let hits = hits_from_lines("p.rs", &lines);
    assert_eq!(hits.len(), 2);
    assert_eq!((hits[0].file.as_str(), hits[0].line, hits[0].content.as_str()), ("p.rs", 4, "a\n"));
    assert_eq!((hits[1].line, hits[1].content.as_str()), (9, "b"));
    assert!(hits_from_lines("p.rs", &Vec::new()).is_empty());
}

#[test]
fn search_is_search_file_over_searched_files() {
    let files = vec![
        file("a.rs", "fn a\nlet b\nfn c\n"),
        file("b.py", "fn d\n"),
        SourceFile { path: "c.rs".to_string(), bytes: None },
        file("d.rs", "fn e\n"),
    ];
    let mut c = config("fn");
    c.glob = Some("*.rs".to_string());
    let m = build_matcher("fn", false, false).unwrap();
    let mut expected = Vec::new();
    for f in &files {
        if f.path.ends_with(".rs") {
            expected.extend(search_file(&f.path, &f.bytes, &m));
        }
    }
    let key = |h: &SearchHit| (h.file.clone(), h.line, h.byte_offset, h.content.clone());
    let got: Vec<_> = search(&c, &files).unwrap().iter().map(key).collect();
    assert_eq!(got, expected.iter().map(key).collect::<Vec<_>>());
    assert_eq!(got.len(), 3);
}

#[test]
fn each_count_is_that_files_hits() {
    let files = vec![
        file("a.rs", "x\nxx\ny\nx\n"),
        file("b.rs", "y\n"),
        file("c.rs", "x\n"),
        file("a.rs", "no match\n"),
    ];
    let c = config("x");
    let hits = search(&c, &files).unwrap();
    let counts = search_count(&c, &files).unwrap();
    assert_eq!(counts, vec![("a.rs".to_string(), 3), ("c.rs".to_string(), 1)]);
    for (name, n) in &counts {
        assert_eq!(hits.iter().filter(|h| &h.file == name).count(), *n);
    }
    let mut limited = c.clone();
    limited.max_results = Some(1);
    assert_eq!(search_count(&limited, &files).unwrap(), counts);
}

#[test]
fn file_hits_come_in_ascending_line_order_from_one() {
    let m = build_matcher("x", false, false).unwrap();
    let hits = search_file("f", &Some(b"x\ny\n\nx x\nyx\ny\n".to_vec()), &m);
    assert_eq!(hits.iter().map(|h| h.line).collect::<Vec<_>>(), vec![1, 4, 5]);
    let blank = build_matcher("^$", false, false).unwrap();
    let hits = search_file("g", &Some(b"\na\n\n".to_vec()), &blank);
    assert_eq!(hits.iter().map(|h| h.line).collect::<Vec<_>>(), vec![1, 3]);
    assert!(hits.iter().all(|h| h.line >= 1));
}
