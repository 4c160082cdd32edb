//! Character-level string helpers: character and substring tests, trailing
//! whitespace removal and decimal rendering.

use vstd::prelude::*;

verus! {

/// True when the character `c` occurs somewhere in `s`.
pub open spec fn has_char(s: Seq<char>, c: char) -> bool {
    exists|i: int| 0 <= i < s.len() && s[i] == c
}

/// True when `needle` occurs in `hay` as a contiguous run.
pub open spec fn contains_seq(hay: Seq<char>, needle: Seq<char>) -> bool {
    exists|i: int| 0 <= i <= hay.len() - needle.len() && #[trigger] hay.subrange(i, i + needle.len()) == needle
}

/// The characters of `s`, in order.
pub fn chars_of(s: &str) -> (r: Vec<char>)
    ensures
        r@ == s@,
{
    let mut out: Vec<char> = Vec::new();
    for c in it: s.chars()
        invariant
            it.seq() == s@,
            out@ == s@.take(it.index() as int),
    {
        assert(s@.take(it.index() + 1) == s@.take(it.index() as int).push(c));
        out.push(c);
    }
    assert(s@.take(s@.len() as int) == s@);
    out
}

/// Whether `needle` occurs in `hay` starting at position `at`.
fn occurs_at(hay: &Vec<char>, needle: &Vec<char>, at: usize) -> (r: bool)
    requires
        at + needle@.len() <= hay@.len(),
    ensures
        r == (hay@.subrange(at as int, at + needle@.len()) == needle@),
{
    let hay_len = hay.len();
    let mut j: usize = 0;
    while j < needle.len()
        invariant
            hay_len == hay@.len(),
            at + needle@.len() <= hay@.len(),
            j <= needle@.len(),
            forall|k: int| 0 <= k < j ==> hay@[at + k] == needle@[k],
        decreases needle@.len() - j,
    {
        if hay[at + j] != needle[j] {
            assert(hay@.subrange(at as int, at + needle@.len())[j as int] != needle@[j as int]);
            return false;
        }
        j = j + 1;
    }
    assert(hay@.subrange(at as int, at + needle@.len()) =~= needle@);
    true
}

/// Whether `needle` occurs in `hay` as a contiguous run of characters
/// (as `str::contains` with a string pattern answers).
pub fn str_contains(hay: &str, needle: &str) -> (r: bool)
    ensures
        r == contains_seq(hay@, needle@),
{
    let h = chars_of(hay);
    let n = chars_of(needle);
    if n.len() > h.len() {
        return false;
    }
    let last = h.len() - n.len();
    let mut i: usize = 0;
    loop
        invariant
            h@ == hay@,
            n@ == needle@,
            last == h@.len() - n@.len(),
            i <= last,
            forall|k: int| 0 <= k < i ==> #[trigger] hay@.subrange(k, k + needle@.len()) != needle@,
        decreases last - i,
    {
        if occurs_at(&h, &n, i) {
            assert(hay@.subrange(i as int, i + needle@.len()) == needle@);
            return true;
        }
        if i == last {
            return false;
        }
        i = i + 1;
    }
}

/// Whether `a` and `b` hold the same characters (as `==` on `str` answers).
pub fn str_eq(a: &str, b: &str) -> (r: bool)
    ensures
        r == (a@ == b@),
{
    let x = chars_of(a);
    let y = chars_of(b);
    if x.len() != y.len() {
        return false;
    }
    let mut i: usize = 0;
    while i < x.len()
        invariant
            x@ == a@,
            y@ == b@,
            x@.len() == y@.len(),
            i <= x@.len(),
            forall|k: int| 0 <= k < i ==> x@[k] == y@[k],
        decreases x@.len() - i,
    {
        if x[i] != y[i] {
            return false;
        }
        i = i + 1;
    }
    assert(x@ =~= y@);
    true
}

/// Whether `c` has the Unicode White_Space property (the characters that
/// `char::is_whitespace` accepts): tab, line feed, vertical tab, form feed,
/// carriage return, space, U+0085, U+00A0, U+1680, U+2000 to U+200A,
/// U+2028, U+2029, U+202F, U+205F and U+3000.
pub open spec fn unicode_whitespace(c: char) -> bool {
    let u = c as u32;
    (0x9 <= u && u <= 0xD) || u == 0x20 || u == 0x85 || u == 0xA0 || u == 0x1680
        || (0x2000 <= u && u <= 0x200A) || u == 0x2028 || u == 0x2029 || u == 0x202F
        || u == 0x205F || u == 0x3000
}

/// Whether `c` is a Unicode whitespace character.
pub fn is_unicode_whitespace(c: char) -> (r: bool)
    ensures
        r == unicode_whitespace(c),
{
    let u = c as u32;
    (0x9 <= u && u <= 0xD) || u == 0x20 || u == 0x85 || u == 0xA0 || u == 0x1680
        || (0x2000 <= u && u <= 0x200A) || u == 0x2028 || u == 0x2029 || u == 0x202F
        || u == 0x205F || u == 0x3000
}

/// Calls `String::push`: the character is appended at the end.
#[verifier::external_body]
pub(crate) fn push_char(s: &mut String, c: char)
    ensures
        final(s)@ == old(s)@.push(c),
{
    s.push(c)
}

/// The number of trailing whitespace characters of `s`.
pub open spec fn trailing_ws(s: Seq<char>) -> nat
    decreases s.len(),
{
    if s.len() == 0 || !unicode_whitespace(s.last()) {
        0
    } else {
        1 + trailing_ws(s.drop_last())
    }
}

/// `s` without its trailing whitespace, as `str::trim_end` returns it.
pub open spec fn trim_end_spec(s: Seq<char>) -> Seq<char> {
    s.subrange(0, s.len() - trailing_ws(s))
}

proof fn lemma_trailing_ws_bound(s: Seq<char>)
    ensures
        trailing_ws(s) <= s.len(),
    decreases s.len(),
{
    if s.len() > 0 && unicode_whitespace(s.last()) {
        lemma_trailing_ws_bound(s.drop_last());
    }
}

/// Trimming twice is trimming once: what `trim_end` returns has no
/// trailing whitespace left, and it is a prefix of the input.
pub proof fn trim_end_is_idempotent(s: Seq<char>)
    ensures
        trim_end_spec(trim_end_spec(s)) == trim_end_spec(s),
        trailing_ws(trim_end_spec(s)) == 0,
        trim_end_spec(s) == s.take(trim_end_spec(s).len() as int),
    decreases s.len(),
{
    lemma_trailing_ws_bound(s);
    if s.len() > 0 && unicode_whitespace(s.last()) {
        trim_end_is_idempotent(s.drop_last());
        assert(trim_end_spec(s) =~= trim_end_spec(s.drop_last()));
    } else {
        assert(trim_end_spec(s) =~= s);
    }
    let t = trim_end_spec(s);
    assert(t.subrange(0, t.len() - trailing_ws(t)) =~= t);
}

/// Returns `true` when `c` occurs in `s`.
pub fn str_has_char(s: &str, c: char) -> (r: bool)
    ensures
        r == has_char(s@, c),
{
    let mut found = false;
    for x in it: s.chars()
        invariant
            it.seq() == s@,
            found == has_char(s@.take(it.index() as int), c),
    {
        let ghost k = it.index() as int;
        assert(x == s@[k]);
        assert(s@.take(k + 1) == s@.take(k).push(x));
        if x == c {
            assert(s@.take(k + 1)[k] == c);
            found = true;
        } else {
            assert(has_char(s@.take(k + 1), c) ==> has_char(s@.take(k), c)) by {
                if has_char(s@.take(k + 1), c) {
                    let j = choose|j: int| 0 <= j < k + 1 && #[trigger] s@.take(k + 1)[j] == c;
                    assert(s@.take(k)[j] == c);
                }
            }
        }
    }
    assert(s@.take(s@.len() as int) == s@);
    found
}

/// Returns `s` with its trailing whitespace removed, as `str::trim_end` does.
pub fn trim_end(s: &str) -> (r: String)
    ensures
        r@ == trim_end_spec(s@),
{
    let n = s.unicode_len();
    let mut keep: usize = 0;
    let mut seen: usize = 0;
    for x in it: s.chars()
        invariant
            it.seq() == s@,
            n == s@.len(),
            seen == it.index(),
            it.index() <= s@.len(),
            keep + trailing_ws(s@.take(it.index() as int)) == it.index(),
    {
        let ghost k = it.index() as int;
        assert(x == s@[k]);
        assert(s@.take(k + 1).drop_last() == s@.take(k));
        assert(s@.take(k + 1).last() == x);
        proof { lemma_trailing_ws_bound(s@.take(k)); }
        seen = seen + 1;
        if !is_unicode_whitespace(x) {
            keep = seen;
        }
    }
    assert(s@.take(s@.len() as int) == s@);
    proof { lemma_trailing_ws_bound(s@); }
    s.substring_char(0, keep).to_string()
}

/// The ASCII digit that stands for `d` (which is below ten).
pub open spec fn digit_char(d: nat) -> char {
    (d + 48) as char
}

/// The decimal notation of `n`, without sign or leading zeros.
pub open spec fn decimal(n: nat) -> Seq<char>
    decreases n,
{
    if n < 10 {
        seq![digit_char(n)]
    } else {
        decimal(n / 10).push(digit_char(n % 10))
    }
}

/// Appends the decimal notation of `n` to `s`.
pub fn push_decimal(s: &mut String, n: usize)
    ensures
        final(s)@ == old(s)@ + decimal(n as nat),
    decreases n,
{
    if n >= 10 {
        push_decimal(s, n / 10);
    }
    let d: u8 = (n % 10) as u8;
    push_char(s, (d + 48u8) as char);
    assert(digit_char((n % 10) as nat) == (d + 48u8) as char);
}

} // verus!
