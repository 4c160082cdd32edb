use pyfastgrep::csv::{count_results_to_csv, csv_escape, files_to_csv, hit_to_csv_row, hits_to_csv, hits_to_csv_header};
use pyfastgrep::text::{chars_of, push_decimal, str_contains, str_eq, str_has_char, trim_end};
use pyfastgrep::SearchHit;

#[test]
fn csv_escape_leaves_plain_fields() {
    assert_eq!(csv_escape("src/main.rs"), "src/main.rs");
    assert_eq!(csv_escape(""), "");
}

#[test]
fn csv_escape_quotes_special_fields() {
    assert_eq!(csv_escape("a,b"), "\"a,b\"");
    assert_eq!(csv_escape("say \"hi\""), "\"say \"\"hi\"\"\"");
    assert_eq!(csv_escape("line\nbreak"), "\"line\nbreak\"");
    assert_eq!(csv_escape("cr\rhere"), "\"cr\rhere\"");
}

fn read_field(f: &str) -> String {
    if f.len() >= 2 && f.starts_with('"') {
        f[1..f.len() - 1].replace("\"\"", "\"")
    } else {
        f.to_string()
    }
}

#[test]
fn csv_escape_reads_back_on_examples() {
    for v in ["plain", "a,b", "\"quoted\"", "\"", "x\"\"y", "multi\nline", "", "\"a\",\"b\""] {
        let e = csv_escape(v);
        assert_eq!(read_field(&e), v);
        if e.starts_with('"') {
            assert!(e.len() >= 2 && e.ends_with('"'));
        }
    }
}

/// Splits one CSV record into its fields by RFC 4180 rules.
fn read_record(row: &str) -> (Vec<String>, String) {
    let chars: Vec<char> = row.chars().collect();
    let mut fields = Vec::new();
    let mut i = 0;
    loop {
        let mut value = String::new();
        if i < chars.len() && chars[i] == '"' {
            i += 1;
            while i < chars.len() {
                if chars[i] == '"' {
                    if i + 1 < chars.len() && chars[i + 1] == '"' {
                        value.push('"');
                        i += 2;
                    } else {
                        i += 1;
                        break;
                    }
                } else {
                    value.push(chars[i]);
                    i += 1;
                }
            }
        } else {
            while i < chars.len() && chars[i] != ',' && chars[i] != '\n' {
                value.push(chars[i]);
                i += 1;
            }
        }
        fields.push(value);
        if i < chars.len() && chars[i] == ',' {
            i += 1;
        } else {
            break;
        }
    }
    (fields, chars[i..].iter().collect())
}

#[test]
fn csv_row_reads_back_as_record() {
    let cases = [
        ("src/a.rs", 12usize, "fn main() {  \n"),
        ("a,b.rs", 3, "x, y\r\n"),
        ("q\"uote.rs", 0, "say \"hi\", then\nmore  "),
        ("f", 100, ""),
    ];
    for (file, line, content) in cases {
        let (fields, rest) = read_record(&hit_to_csv_row(file, line, content));
        assert_eq!(fields, vec![file.to_string(), line.to_string(), content.trim_end().to_string()]);
        assert_eq!(rest, "\n");
    }
}

#[test]
fn csv_row_trims_content_and_escapes() {
    assert_eq!(hit_to_csv_row("src/a.rs", 12, "fn main() {  \n"), "src/a.rs,12,fn main() {\n");
    assert_eq!(hit_to_csv_row("a,b.rs", 3, "x, y\r\n"), "\"a,b.rs\",3,\"x, y\"\n");
    assert_eq!(hit_to_csv_row("f", 0, ""), "f,0,\n");
}

#[test]
fn csv_header_is_fixed() {
    assert_eq!(hits_to_csv_header(), "file,line,content\n");
}

#[test]
fn hits_to_csv_has_header_and_rows() {
    let hits = vec![
        SearchHit { file: "a.rs".to_string(), line: 1, byte_offset: None, content: "fn a()\n".to_string() },
        SearchHit { file: "b.rs".to_string(), line: 20, byte_offset: None, content: "let x = \"q\";\n".to_string() },
    ];
    assert_eq!(
        hits_to_csv(&hits),
        "file,line,content\na.rs,1,fn a()\nb.rs,20,\"let x = \"\"q\"\";\"\n"
    );
    assert_eq!(hits_to_csv(&[]), "file,line,content\n");
}

#[test]
fn count_results_csv() {
    let results = vec![("src/a.rs".to_string(), 3), ("x,y".to_string(), 10)];
    assert_eq!(count_results_to_csv(&results), "file,count\nsrc/a.rs,3\n\"x,y\",10\n");
    assert_eq!(count_results_to_csv(&[]), "file,count\n");
}

#[test]
fn files_csv() {
    let files = vec!["a.rs".to_string(), "b\"c.rs".to_string()];
    assert_eq!(files_to_csv(&files), "file\na.rs\n\"b\"\"c.rs\"\n");
}

#[test]
fn trim_end_removes_only_trailing_whitespace() {
    assert_eq!(trim_end("  a b \t\r\n"), "  a b");
    assert_eq!(trim_end(""), "");
    assert_eq!(trim_end(" \n"), "");
    assert_eq!(trim_end("x\u{3000}"), "x");
    assert_eq!(trim_end("no"), "no");
}

#[test]
fn trim_end_twice_is_trim_end_once() {
    for s in ["a  ", " b\t\n", "", "c"] {
        let once = trim_end(s);
        assert_eq!(trim_end(&once), once);
    }
}

#[test]
fn decimal_rendering() {
    let mut s = String::from("n=");
    push_decimal(&mut s, 0);
    assert_eq!(s, "n=0");
    let mut s = String::new();
    push_decimal(&mut s, 1234567890);
    assert_eq!(s, "1234567890");
    let mut s = String::new();
    push_decimal(&mut s, usize::MAX);
    assert_eq!(s, usize::MAX.to_string());
}

#[test]
fn has_char_finds_characters() {
    assert!(str_has_char("abc", 'b'));
    assert!(!str_has_char("abc", 'z'));
    assert!(!str_has_char("", 'a'));
}

#[test]
fn whitespace_table_agrees_with_std() {
    for u in 0u32..0x110000 {
        if let Some(c) = char::from_u32(u) {
            assert_eq!(pyfastgrep::text::is_unicode_whitespace(c), c.is_whitespace(), "U+{:04X}", u);
        }
    }
}

#[test]
fn character_level_string_tests() {
    assert_eq!(chars_of("añb"), vec!['a', 'ñ', 'b']);
    assert!(str_contains("use std::io;", "std"));
    assert!(str_contains("abc", ""));
    assert!(str_contains("", ""));
    assert!(!str_contains("", "a"));
    assert!(str_contains("añb", "ñb"));
    assert!(!str_contains("ab", "abc"));
    assert!(str_contains("aab", "ab"));
    assert!(str_eq("main", "main"));
    assert!(!str_eq("main", "main2"));
    assert!(!str_eq("ñ", "n"));
    assert!(str_eq("", ""));
}
