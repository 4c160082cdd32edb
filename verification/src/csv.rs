//! CSV rendering of search results (RFC 4180 style quoting).

use vstd::prelude::*;

use crate::text::{decimal, digit_char, has_char, push_char, push_decimal, str_has_char, trim_end, trim_end_spec};
use crate::SearchHit;

verus! {

/// A field needs quoting when it holds a comma, a double quote or a line break.
pub open spec fn csv_needs_quoting(s: Seq<char>) -> bool {
    has_char(s, ',') || has_char(s, '"') || has_char(s, '\n') || has_char(s, '\r')
}

/// `s` with every double quote doubled.
pub open spec fn double_quotes(s: Seq<char>) -> Seq<char>
    decreases s.len(),
{
    if s.len() == 0 {
        s
    } else if s.last() == '"' {
        double_quotes(s.drop_last()).push('"').push('"')
    } else {
        double_quotes(s.drop_last()).push(s.last())
    }
}

/// A CSV field holding exactly `s`.
pub open spec fn csv_escape_spec(s: Seq<char>) -> Seq<char> {
    if csv_needs_quoting(s) {
        seq!['"'] + double_quotes(s) + seq!['"']
    } else {
        s
    }
}

/// Escapes `value` for use as one CSV field: a field holding a comma, a
/// double quote or a line break is quoted, with inner quotes doubled.
pub fn csv_escape(value: &str) -> (r: String)
    ensures
        r@ == csv_escape_spec(value@),
{
    if str_has_char(value, ',') || str_has_char(value, '"') || str_has_char(value, '\n')
        || str_has_char(value, '\r') {
        let mut out = String::new();
        push_char(&mut out, '"');
        for x in it: value.chars()
            invariant
                it.seq() == value@,
                out@ == seq!['"'] + double_quotes(value@.take(it.index() as int)),
        {
            let ghost k = it.index() as int;
            assert(x == value@[k]);
            assert(value@.take(k + 1).drop_last() == value@.take(k));
            assert(value@.take(k + 1).last() == x);
            if x == '"' {
                push_char(&mut out, '"');
                push_char(&mut out, '"');
            } else {
                push_char(&mut out, x);
            }
        }
        assert(value@.take(value@.len() as int) == value@);
        push_char(&mut out, '"');
        out
    } else {
        value.to_string()
    }
}

/// Reads back the value of one CSV field: a field that starts with a double
/// quote loses its first and last characters, and each pair of double quotes
/// between them becomes one.
pub open spec fn csv_field_value(f: Seq<char>) -> Seq<char> {
    if f.len() >= 2 && f[0] == '"' {
        undouble_quotes(f.subrange(1, f.len() - 1))
    } else {
        f
    }
}

/// Replaces each pair of double quotes, scanning from the front without
/// overlap, by one double quote.
pub open spec fn undouble_quotes(t: Seq<char>) -> Seq<char>
    decreases t.len(),
{
    if t.len() == 0 {
        t
    } else if t.len() >= 2 && t[0] == '"' && t[1] == '"' {
        seq!['"'] + undouble_quotes(t.skip(2))
    } else {
        seq![t[0]] + undouble_quotes(t.skip(1))
    }
}

proof fn lemma_undouble_double(s: Seq<char>)
    ensures
        undouble_quotes(double_quotes(s)) == s,
    decreases s.len(),
{
    if s.len() > 0 {
        lemma_double_quotes_front(s);
        lemma_undouble_double(s.skip(1));
        let t = double_quotes(s);
        let u = double_quotes(s.skip(1));
        if s[0] == '"' {
            assert(t =~= seq!['"', '"'] + u);
            assert(t.skip(2) =~= u);
        } else {
            assert(t =~= seq![s[0]] + u);
            assert(t.skip(1) =~= u);
            if u.len() > 0 {
                assert(t[1] == u[0]);
            }
        }
        assert(s =~= seq![s[0]] + s.skip(1));
    }
}

/// Escaping loses nothing: the field that `csv_escape` writes for a value
/// reads back as that same value. A field that starts with a double quote
/// also ends with one, and between them every double quote is doubled.
pub proof fn csv_escape_reads_back(s: Seq<char>)
    ensures
        csv_field_value(csv_escape_spec(s)) == s,
        csv_escape_spec(s).len() > 0 && csv_escape_spec(s)[0] == '"' ==> {
            let e = csv_escape_spec(s);
            &&& e.len() >= 2
            &&& e.last() == '"'
            &&& e.subrange(1, e.len() - 1) == double_quotes(s)
        },
{
    if csv_needs_quoting(s) {
        let f = seq!['"'] + double_quotes(s) + seq!['"'];
        assert(f.subrange(1, f.len() - 1) == double_quotes(s));
        lemma_undouble_double(s);
    } else {
        if s.len() > 0 && s[0] == '"' {
            assert(has_char(s, '"'));
        }
    }
}

/// What a double quote stands for inside a quoted field: itself doubled.
pub open spec fn quote_piece(c: char) -> Seq<char> {
    if c == '"' {
        seq!['"', '"']
    } else {
        seq![c]
    }
}

proof fn lemma_double_quotes_concat(a: Seq<char>, b: Seq<char>)
    ensures
        double_quotes(a + b) == double_quotes(a) + double_quotes(b),
    decreases b.len(),
{
    if b.len() == 0 {
        assert(a + b =~= a);
        assert(double_quotes(a) + double_quotes(b) =~= double_quotes(a));
    } else {
        lemma_double_quotes_concat(a, b.drop_last());
        assert((a + b).drop_last() =~= a + b.drop_last());
        assert((a + b).last() == b.last());
        if b.last() == '"' {
            assert(double_quotes(a) + double_quotes(b) =~= (double_quotes(a) + double_quotes(
                b.drop_last(),
            )).push('"').push('"'));
        } else {
            assert(double_quotes(a) + double_quotes(b) =~= (double_quotes(a) + double_quotes(
                b.drop_last(),
            )).push(b.last()));
        }
    }
}

proof fn lemma_double_quotes_front(x: Seq<char>)
    requires
        x.len() > 0,
    ensures
        double_quotes(x) == quote_piece(x[0]) + double_quotes(x.skip(1)),
{
    assert(x =~= seq![x[0]] + x.skip(1));
    lemma_double_quotes_concat(seq![x[0]], x.skip(1));
    let one = seq![x[0]];
    assert(one.drop_last() =~= Seq::<char>::empty());
    assert(one.last() == x[0]);
    assert(double_quotes(one.drop_last()) =~= Seq::<char>::empty());
    if x[0] == '"' {
        assert(double_quotes(one) =~= Seq::<char>::empty().push('"').push('"'));
    } else {
        assert(double_quotes(one) =~= Seq::<char>::empty().push(x[0]));
    }
    assert(double_quotes(one) =~= quote_piece(x[0]));
}

/// Reads the rest of a quoted field (after its opening quote): a doubled
/// quote stands for one quote, a single quote closes the field. Gives the
/// field's value and what follows the closing quote.
pub open spec fn read_quoted(s: Seq<char>) -> (Seq<char>, Seq<char>)
    decreases s.len(),
{
    if s.len() == 0 {
        (Seq::empty(), Seq::empty())
    } else if s[0] == '"' {
        if s.len() >= 2 && s[1] == '"' {
            let (v, r) = read_quoted(s.skip(2));
            (seq!['"'] + v, r)
        } else {
            (Seq::empty(), s.skip(1))
        }
    } else {
        let (v, r) = read_quoted(s.skip(1));
        (seq![s[0]] + v, r)
    }
}

/// Reads an unquoted field: everything up to a comma or a line feed.
pub open spec fn read_plain(s: Seq<char>) -> (Seq<char>, Seq<char>)
    decreases s.len(),
{
    if s.len() == 0 || s[0] == ',' || s[0] == '\n' {
        (Seq::empty(), s)
    } else {
        let (v, r) = read_plain(s.skip(1));
        (seq![s[0]] + v, r)
    }
}

/// Reads one CSV field from the front of `s`: its value and what follows it.
pub open spec fn read_field(s: Seq<char>) -> (Seq<char>, Seq<char>) {
    if s.len() > 0 && s[0] == '"' {
        read_quoted(s.skip(1))
    } else {
        read_plain(s)
    }
}

/// Reads `n` comma-separated fields from the front of `s`: their values and
/// what follows the last one, or `None` when a separator is missing.
pub open spec fn read_record(s: Seq<char>, n: nat) -> Option<(Seq<Seq<char>>, Seq<char>)>
    decreases n,
{
    let (v, r) = read_field(s);
    if n <= 1 {
        Some((seq![v], r))
    } else if r.len() > 0 && r[0] == ',' {
        match read_record(r.skip(1), (n - 1) as nat) {
            Some((vs, rr)) => Some((seq![v] + vs, rr)),
            None => None,
        }
    } else {
        None
    }
}

/// What may follow a field: the end, a comma or a line feed.
pub open spec fn field_end(rest: Seq<char>) -> bool {
    rest.len() == 0 || rest[0] == ',' || rest[0] == '\n'
}

proof fn lemma_read_quoted(x: Seq<char>, rest: Seq<char>)
    requires
        field_end(rest),
    ensures
        read_quoted(double_quotes(x) + seq!['"'] + rest) == (x, rest),
    decreases x.len(),
{
    let s = double_quotes(x) + seq!['"'] + rest;
    if x.len() == 0 {
        assert(double_quotes(x) =~= Seq::<char>::empty());
        assert(s =~= seq!['"'] + rest);
        assert(s.skip(1) =~= rest);
    } else {
        lemma_double_quotes_front(x);
        lemma_read_quoted(x.skip(1), rest);
        let t = double_quotes(x.skip(1)) + seq!['"'] + rest;
        assert(x =~= seq![x[0]] + x.skip(1));
        if x[0] == '"' {
            assert(s =~= seq!['"', '"'] + t);
            assert(s.skip(2) =~= t);
        } else {
            assert(s =~= seq![x[0]] + t);
            assert(s.skip(1) =~= t);
        }
    }
}

proof fn lemma_read_plain(x: Seq<char>, rest: Seq<char>)
    requires
        field_end(rest),
        !has_char(x, ','),
        !has_char(x, '\n'),
    ensures
        read_plain(x + rest) == (x, rest),
    decreases x.len(),
{
    let s = x + rest;
    if x.len() == 0 {
        assert(s =~= rest);
    } else {
        assert(x[0] != ',' && x[0] != '\n') by {
            if x[0] == ',' { assert(has_char(x, ',')); }
            if x[0] == '\n' { assert(has_char(x, '\n')); }
        }
        let y = x.skip(1);
        assert(!has_char(y, ',') && !has_char(y, '\n')) by {
            if has_char(y, ',') {
                let i = choose|i: int| 0 <= i < y.len() && y[i] == ',';
                assert(x[i + 1] == ',');
            }
            if has_char(y, '\n') {
                let i = choose|i: int| 0 <= i < y.len() && y[i] == '\n';
                assert(x[i + 1] == '\n');
            }
        }
        lemma_read_plain(y, rest);
        assert(s.skip(1) =~= y + rest);
        assert(x =~= seq![x[0]] + y);
    }
}

/// An escaped field reads back as its value: a field that `csv_escape`
/// writes, followed by the end, a comma or a line feed, is read (quoted:
/// between its quotes, with doubled quotes undoubled; otherwise as it
/// stands) as exactly the escaped value, and reading stops right after it.
/// A field that starts with a quote also ends with one.
pub proof fn escaped_field_reads_back(v: Seq<char>, rest: Seq<char>)
    requires
        field_end(rest),
    ensures
        read_field(csv_escape_spec(v) + rest) == (v, rest),
        csv_escape_spec(v).len() > 0 && csv_escape_spec(v)[0] == '"' ==> csv_escape_spec(v).last()
            == '"',
{
    let e = csv_escape_spec(v);
    let s = e + rest;
    if csv_needs_quoting(v) {
        assert(s =~= seq!['"'] + (double_quotes(v) + seq!['"'] + rest));
        assert(s.skip(1) =~= double_quotes(v) + seq!['"'] + rest);
        lemma_read_quoted(v, rest);
    } else {
        lemma_read_plain(v, rest);
        if v.len() > 0 {
            assert(v[0] != '"') by {
                if v[0] == '"' { assert(has_char(v, '"')); }
            }
            assert(s[0] == v[0]);
        } else {
            assert(s =~= rest);
        }
    }
}

proof fn lemma_digit_char_range(d: nat)
    requires
        d < 10,
    ensures
        '0' <= digit_char(d) <= '9',
{
}

proof fn lemma_decimal_digits(n: nat)
    ensures
        forall|i: int| 0 <= i < decimal(n).len() ==> '0' <= #[trigger] decimal(n)[i] && decimal(n)[i] <= '9',
    decreases n,
{
    if n < 10 {
        lemma_digit_char_range(n);
        assert(decimal(n) == seq![digit_char(n)]);
    } else {
        lemma_decimal_digits(n / 10);
        lemma_digit_char_range(n % 10);
        let p = decimal(n / 10);
        assert(decimal(n) == p.push(digit_char(n % 10)));
        assert forall|i: int| 0 <= i < decimal(n).len() implies '0' <= #[trigger] decimal(n)[i] && decimal(n)[i] <= '9' by {
            if i < p.len() {
                assert(decimal(n)[i] == p[i]);
            } else {
                assert(decimal(n)[i] == digit_char(n % 10));
            }
        }
    }
}

proof fn lemma_decimal_plain(n: nat)
    ensures
        csv_escape_spec(decimal(n)) == decimal(n),
        !has_char(decimal(n), ','),
        !has_char(decimal(n), '\n'),
{
    lemma_decimal_digits(n);
    let d = decimal(n);
    assert forall|c: char| c == ',' || c == '"' || c == '\n' || c == '\r' implies !has_char(d, c) by {
        if has_char(d, c) {
            let i = choose|i: int| 0 <= i < d.len() && d[i] == c;
            assert('0' <= d[i]);
        }
    }
}

/// A CSV row of a hit reads back as its record: read as three
/// comma-separated fields, it gives exactly the file, the line number in
/// decimal and the trimmed content, and only the line feed follows.
pub proof fn csv_row_reads_back(file: Seq<char>, line: nat, content: Seq<char>)
    ensures
        read_record(csv_row_spec(file, line, content), 3) == Some(
            (seq![file, decimal(line), trim_end_spec(content)], seq!['\n']),
        ),
{
    let e1 = csv_escape_spec(file);
    let d = decimal(line);
    let t = trim_end_spec(content);
    let e3 = csv_escape_spec(t);
    let r3 = seq!['\n'];
    let r2 = seq![','] + e3 + r3;
    let r1 = seq![','] + d + r2;
    let row = csv_row_spec(file, line, content);
    assert(row =~= e1 + r1);
    lemma_decimal_plain(line);
    escaped_field_reads_back(file, r1);
    assert(r1.skip(1) =~= d + r2);
    assert(read_field(d + r2) == (d, r2)) by {
        escaped_field_reads_back(d, r2);
    }
    assert(r2.skip(1) =~= e3 + r3);
    escaped_field_reads_back(t, r3);
    let rec3 = read_record(e3 + r3, 1);
    assert(rec3 == Some((seq![t], r3)));
    let rec2 = read_record(d + r2, 2);
    assert(rec2 == Some((seq![d] + seq![t], r3)));
    assert(read_record(row, 3) == Some((seq![file] + (seq![d] + seq![t]), r3)));
    assert(seq![file] + (seq![d] + seq![t]) =~= seq![file, d, t]);
}

/// The header line of hit CSV output.
pub open spec fn hits_csv_header_spec() -> Seq<char> {
    "file,line,content\n"@
}

/// One CSV row for a hit: escaped file, line number, escaped trimmed content.
pub open spec fn csv_row_spec(file: Seq<char>, line: nat, content: Seq<char>) -> Seq<char> {
    csv_escape_spec(file) + seq![','] + decimal(line) + seq![','] + csv_escape_spec(
        trim_end_spec(content),
    ) + seq!['\n']
}

/// Renders one hit as a CSV row `file,line,content` ending in a newline; the
/// content loses its trailing whitespace.
pub fn hit_to_csv_row(file: &str, line: usize, content: &str) -> (r: String)
    ensures
        r@ == csv_row_spec(file@, line as nat, content@),
{
    let mut out = csv_escape(file);
    push_char(&mut out, ',');
    push_decimal(&mut out, line);
    push_char(&mut out, ',');
    let trimmed = trim_end(content);
    let field = csv_escape(trimmed.as_str());
    out.append(field.as_str());
    push_char(&mut out, '\n');
    out
}

/// The header line of hit CSV output.
pub fn hits_to_csv_header() -> (r: String)
    ensures
        r@ == hits_csv_header_spec(),
{
    "file,line,content\n".to_string()
}

/// The rows of hit CSV output, one per hit, in order.
pub open spec fn hit_rows_spec(hits: Seq<SearchHit>) -> Seq<char>
    decreases hits.len(),
{
    if hits.len() == 0 {
        Seq::empty()
    } else {
        let h = hits.last();
        hit_rows_spec(hits.drop_last()) + csv_row_spec(h.file@, h.line as nat, h.content@)
    }
}

/// Renders hits as CSV: the header line, then one row per hit.
pub fn hits_to_csv(hits: &[SearchHit]) -> (r: String)
    ensures
        r@ == hits_csv_header_spec() + hit_rows_spec(hits@),
{
    let mut out = hits_to_csv_header();
    for i in 0..hits.len()
        invariant
            out@ == hits_csv_header_spec() + hit_rows_spec(hits@.take(i as int)),
    {
        assert(hits@.take(i + 1).drop_last() == hits@.take(i as int));
        let row = hit_to_csv_row(hits[i].file.as_str(), hits[i].line, hits[i].content.as_str());
        out.append(row.as_str());
    }
    assert(hits@.take(hits@.len() as int) == hits@);
    out
}

/// The rows of count CSV output, one `file,count` line per entry.
pub open spec fn count_rows_spec(results: Seq<(String, usize)>) -> Seq<char>
    decreases results.len(),
{
    if results.len() == 0 {
        Seq::empty()
    } else {
        let e = results.last();
        count_rows_spec(results.drop_last()) + csv_escape_spec(e.0@) + seq![','] + decimal(
            e.1 as nat,
        ) + seq!['\n']
    }
}

/// Renders per-file match counts as CSV under the header `file,count`.
pub fn count_results_to_csv(results: &[(String, usize)]) -> (r: String)
    ensures
        r@ == "file,count\n"@ + count_rows_spec(results@),
{
    let mut output = "file,count\n".to_string();
    for i in 0..results.len()
        invariant
            output@ == "file,count\n"@ + count_rows_spec(results@.take(i as int)),
    {
        assert(results@.take(i + 1).drop_last() == results@.take(i as int));
        let field = csv_escape(results[i].0.as_str());
        output.append(field.as_str());
        push_char(&mut output, ',');
        push_decimal(&mut output, results[i].1);
        push_char(&mut output, '\n');
    }
    assert(results@.take(results@.len() as int) == results@);
    output
}

/// The rows of file-list CSV output, one escaped file name per line.
pub open spec fn file_rows_spec(files: Seq<String>) -> Seq<char>
    decreases files.len(),
{
    if files.len() == 0 {
        Seq::empty()
    } else {
        file_rows_spec(files.drop_last()) + csv_escape_spec(files.last()@) + seq!['\n']
    }
}

/// Renders a list of file names as CSV under the header `file`.
pub fn files_to_csv(files: &[String]) -> (r: String)
    ensures
        r@ == "file\n"@ + file_rows_spec(files@),
{
    let mut output = "file\n".to_string();
    for i in 0..files.len()
        invariant
            output@ == "file\n"@ + file_rows_spec(files@.take(i as int)),
    {
        assert(files@.take(i + 1).drop_last() == files@.take(i as int));
        let field = csv_escape(files[i].as_str());
        output.append(field.as_str());
        push_char(&mut output, '\n');
    }
    assert(files@.take(files@.len() as int) == files@);
    output
}

} // verus!
