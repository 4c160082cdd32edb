use pyfastgrep::ast::{capture_hits, capture_matches, line_at, record_file_captures, search_ast, AstCapture, AstFile, AstQueryType};

#[test]
fn capture_matching_rules() {
    assert!(capture_matches(AstQueryType::Function, "main", "main"));
    assert!(!capture_matches(AstQueryType::Function, "main2", "main"));
    assert!(capture_matches(AstQueryType::Class, "Foo", "Foo"));
    assert!(capture_matches(AstQueryType::Import, "use std::io;", "std"));
    assert!(!capture_matches(AstQueryType::Import, "use std::io;", "serde"));
    assert!(capture_matches(AstQueryType::Import, "anything", ""));
}

#[test]
fn lines_by_row() {
    let src = "first\r\nsecond\n\nlast\r";
    assert_eq!(line_at(src, 0), "first");
    assert_eq!(line_at(src, 1), "second");
    assert_eq!(line_at(src, 2), "");
    assert_eq!(line_at(src, 3), "last\r");
    assert_eq!(line_at(src, 4), "");
    assert_eq!(line_at("", 0), "");
    for (i, l) in src.lines().enumerate() {
        assert_eq!(line_at(src, i), l);
    }
}

fn cap(text: &str, row: usize) -> AstCapture {
    AstCapture { text: text.to_string(), row }
}

#[test]
fn captures_become_distinct_results() {
    let source = "fn main() {}\nfn other() {}\n";
    let mut results = Vec::new();
    record_file_captures(
        &mut results,
        "a.rs",
        source,
        &[cap("main", 0), cap("other", 1), cap("main", 0)],
        "main",
        AstQueryType::Function,
    );
    assert_eq!(results, vec![("a.rs".to_string(), 1, "fn main() {}".to_string())]);
}

#[test]
fn search_ast_over_files() {
    let files = vec![
        AstFile { path: "a.py".to_string(), source: "import os\nimport sys\n".to_string(), captures: vec![cap("import os", 0), cap("import sys", 1)] },
        AstFile { path: "b.rs".to_string(), source: "use os;\n".to_string(), captures: vec![cap("use os;", 0)] },
    ];
    let all = search_ast("os", &None, AstQueryType::Import, &files).unwrap();
    assert_eq!(all.len(), 2);
    let py = search_ast("os", &Some("*.py".to_string()), AstQueryType::Import, &files).unwrap();
    assert_eq!(py, vec![("a.py".to_string(), 1, "import os".to_string())]);
    assert!(search_ast("os", &Some("[".to_string()), AstQueryType::Import, &files).is_err());
}

#[test]
fn streamed_results_are_the_batch_results() {
    let files = vec![
        AstFile { path: "a.py".to_string(), source: "import os\nimport os\n".to_string(), captures: vec![cap("import os", 0), cap("import os", 0), cap("import os", 1)] },
        AstFile { path: "b.rs".to_string(), source: "use os;\n".to_string(), captures: vec![cap("use os;", 0)] },
        AstFile { path: "c.txt".to_string(), source: "os\n".to_string(), captures: vec![cap("os", 0)] },
    ];
    let glob = Some("*.{py,rs}".to_string());
    let batch = search_ast("os", &glob, AstQueryType::Import, &files).unwrap();
    let mut streamed = Vec::new();
    for f in &files {
        if !f.path.ends_with(".txt") {
            streamed.extend(capture_hits(&f.path, &f.source, &f.captures, "os", AstQueryType::Import));
        }
    }
    assert_eq!(streamed.len(), 4);
    assert_eq!(batch.len(), 3);
    for item in &streamed {
        assert!(batch.contains(item));
    }
    for item in &batch {
        assert!(streamed.contains(item));
    }
}
