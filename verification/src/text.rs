//! Small verified text helpers shared by the rest of the crate: decimal
//! rendering of integers, character-sequence conversion, and the ASCII
//! case mappings the plugin tooling relies on.

use vstd::prelude::*;

verus! {

broadcast use vstd::string::group_string_axioms;

/// `String::push` appends exactly one character to the string.
pub assume_specification[ std::string::String::push ](s: &mut std::string::String, ch: char)
    ensures
        final(s)@ == old(s)@.push(ch),
;

/// The decimal digit character for `d` (`d < 10`).
pub open spec fn digit_char(d: nat) -> char {
    if d == 0 {
        '0'
    } else if d == 1 {
        '1'
    } else if d == 2 {
        '2'
    } else if d == 3 {
        '3'
    } else if d == 4 {
        '4'
    } else if d == 5 {
        '5'
    } else if d == 6 {
        '6'
    } else if d == 7 {
        '7'
    } else if d == 8 {
        '8'
    } else {
        '9'
    }
}

/// Base-10 rendering of `n`, without sign or leading zeros.
pub open spec fn decimal(n: nat) -> Seq<char>
    decreases n,
{
    if n < 10 {
        seq![digit_char(n)]
    } else {
        decimal(n / 10).push(digit_char(n % 10))
    }
}

/// The decimal digit character for `d` (`d < 10`).
pub fn digit(d: u64) -> (c: char)
    requires
        d < 10,
    ensures
        c == digit_char(d as nat),
{
    match d {
        0 => '0',
        1 => '1',
        2 => '2',
        3 => '3',
        4 => '4',
        5 => '5',
        6 => '6',
        7 => '7',
        8 => '8',
        _ => '9',
    }
}

/// Render `n` in base 10.
pub fn u64_to_decimal(n: u64) -> (s: String)
    ensures
        s@ == decimal(n as nat),
    decreases n,
{
    if n < 10 {
        let mut s = String::new();
        s.push(digit(n));
        s
    } else {
        let mut s = u64_to_decimal(n / 10);
        s.push(digit(n % 10));
        s
    }
}

/// The characters of `s`, in order.
pub fn chars_of(s: &str) -> (v: Vec<char>)
    ensures
        v@ == s@,
{
    let mut v: Vec<char> = Vec::new();
    for c in iter: s.chars()
        invariant
            iter.seq() == s@,
            v@ == iter.seq().take(iter.index() as int),
    {
        v.push(c);
    }
    v
}

/// A `String` holding exactly the characters `v[from..to]`.
pub fn string_from_chars(v: &[char], from: usize, to: usize) -> (s: String)
    requires
        from <= to <= v@.len(),
    ensures
        s@ == v@.subrange(from as int, to as int),
{
    let mut s = String::new();
    let mut i = from;
    while i < to
        invariant
            from <= i <= to <= v@.len(),
            s@ == v@.subrange(from as int, i as int),
        decreases to - i,
    {
        s.push(v[i]);
        i += 1;
        assert(s@ =~= v@.subrange(from as int, i as int));
    }
    s
}

//==============================================================================
// Trimming and integer parsing
//==============================================================================

/// Unicode `White_Space`, the characters `char::is_whitespace` accepts.
pub open spec fn is_ws(c: char) -> bool {
    ('\u{9}' <= c && c <= '\u{d}') || c == ' ' || c == '\u{85}' || c == '\u{a0}' || c == '\u{1680}'
        || ('\u{2000}' <= c && c <= '\u{200a}') || c == '\u{2028}' || c == '\u{2029}' || c
        == '\u{202f}' || c == '\u{205f}' || c == '\u{3000}'
}

/// Whether `c` is Unicode white space.
pub fn is_whitespace(c: char) -> (b: bool)
    ensures
        b == is_ws(c),
{
    ('\u{9}' <= c && c <= '\u{d}') || c == ' ' || c == '\u{85}' || c == '\u{a0}' || c == '\u{1680}'
        || ('\u{2000}' <= c && c <= '\u{200a}') || c == '\u{2028}' || c == '\u{2029}' || c
        == '\u{202f}' || c == '\u{205f}' || c == '\u{3000}'
}

/// `s` without its leading characters satisfying `p`.
pub open spec fn strip_start(s: Seq<char>, p: spec_fn(char) -> bool) -> Seq<char>
    decreases s.len(),
{
    if s.len() > 0 && p(s[0]) {
        strip_start(s.drop_first(), p)
    } else {
        s
    }
}

/// `s` without its trailing characters satisfying `p`.
pub open spec fn strip_end(s: Seq<char>, p: spec_fn(char) -> bool) -> Seq<char>
    decreases s.len(),
{
    if s.len() > 0 && p(s.last()) {
        strip_end(s.drop_last(), p)
    } else {
        s
    }
}

/// `s` with leading and trailing white space removed (`str::trim`).
pub open spec fn trim(s: Seq<char>) -> Seq<char> {
    strip_end(strip_start(s, |c: char| is_ws(c)), |c: char| is_ws(c))
}

/// `s` with leading and trailing `"` removed (`str::trim_matches('"')`).
pub open spec fn trim_quotes(s: Seq<char>) -> Seq<char> {
    strip_end(strip_start(s, |c: char| c == '"'), |c: char| c == '"')
}

proof fn lemma_strip_start_step(v: Seq<char>, i: int, to: int, p: spec_fn(char) -> bool)
    requires
        0 <= i < to <= v.len(),
        p(v[i]),
    ensures
        strip_start(v.subrange(i, to), p) == strip_start(v.subrange(i + 1, to), p),
{
    assert(v.subrange(i, to).drop_first() =~= v.subrange(i + 1, to));
}

proof fn lemma_strip_end_step(v: Seq<char>, from: int, j: int, p: spec_fn(char) -> bool)
    requires
        0 <= from < j <= v.len(),
        p(v[j - 1]),
    ensures
        strip_end(v.subrange(from, j), p) == strip_end(v.subrange(from, j - 1), p),
{
    assert(v.subrange(from, j).drop_last() =~= v.subrange(from, j - 1));
}

/// The bounds of `v[from..to]` with white space trimmed from both ends.
pub fn trim_range(v: &Vec<char>, from: usize, to: usize) -> (r: (usize, usize))
    requires
        from <= to <= v@.len(),
    ensures
        from <= r.0 <= r.1 <= to,
        v@.subrange(r.0 as int, r.1 as int) == trim(v@.subrange(from as int, to as int)),
{
    let mut i = from;
    while i < to && is_whitespace(v[i])
        invariant
            from <= i <= to <= v@.len(),
            strip_start(v@.subrange(from as int, to as int), |c: char| is_ws(c)) == strip_start(
                v@.subrange(i as int, to as int),
                |c: char| is_ws(c),
            ),
        decreases to - i,
    {
        proof {
            lemma_strip_start_step(v@, i as int, to as int, |c: char| is_ws(c));
        }
        i += 1;
    }
    let mut j = to;
    while j > i && is_whitespace(v[j - 1])
        invariant
            from <= i <= j <= to <= v@.len(),
            strip_end(v@.subrange(i as int, to as int), |c: char| is_ws(c)) == strip_end(
                v@.subrange(i as int, j as int),
                |c: char| is_ws(c),
            ),
        decreases j - i,
    {
        proof {
            lemma_strip_end_step(v@, i as int, j as int, |c: char| is_ws(c));
        }
        j -= 1;
    }
    proof {
        let t = v@.subrange(i as int, to as int);
        assert(!(t.len() > 0 && is_ws(t[0])) ==> strip_start(t, |c: char| is_ws(c)) == t);
        let u = v@.subrange(i as int, j as int);
        assert(strip_end(u, |c: char| is_ws(c)) == u);
    }
    (i, j)
}

/// The bounds of `v[from..to]` with `"` trimmed from both ends.
pub fn trim_quotes_range(v: &Vec<char>, from: usize, to: usize) -> (r: (usize, usize))
    requires
        from <= to <= v@.len(),
    ensures
        from <= r.0 <= r.1 <= to,
        v@.subrange(r.0 as int, r.1 as int) == trim_quotes(v@.subrange(from as int, to as int)),
{
    let mut i = from;
    while i < to && v[i] == '"'
        invariant
            from <= i <= to <= v@.len(),
            strip_start(v@.subrange(from as int, to as int), |c: char| c == '"') == strip_start(
                v@.subrange(i as int, to as int),
                |c: char| c == '"',
            ),
        decreases to - i,
    {
        proof {
            lemma_strip_start_step(v@, i as int, to as int, |c: char| c == '"');
        }
        i += 1;
    }
    let mut j = to;
    while j > i && v[j - 1] == '"'
        invariant
            from <= i <= j <= to <= v@.len(),
            strip_end(v@.subrange(i as int, to as int), |c: char| c == '"') == strip_end(
                v@.subrange(i as int, j as int),
                |c: char| c == '"',
            ),
        decreases j - i,
    {
        proof {
            lemma_strip_end_step(v@, i as int, j as int, |c: char| c == '"');
        }
        j -= 1;
    }
    proof {
        let u = v@.subrange(i as int, j as int);
        assert(strip_end(u, |c: char| c == '"') == u);
    }
    (i, j)
}

/// Whether `c` is an ASCII digit.
pub open spec fn is_digit(c: char) -> bool {
    '0' <= c && c <= '9'
}

/// The value of a string of decimal digits.
pub open spec fn digits_value(s: Seq<char>) -> nat
    decreases s.len(),
{
    if s.len() == 0 {
        0
    } else {
        digits_value(s.drop_last()) * 10 + ((s.last() as u32) - ('0' as u32)) as nat
    }
}

/// `s` without one leading `+`.
pub open spec fn unsigned_part(s: Seq<char>) -> Seq<char> {
    if s.len() > 0 && s[0] == '+' {
        s.drop_first()
    } else {
        s
    }
}

/// Every character of `d` is an ASCII digit.
pub open spec fn all_digits(d: Seq<char>) -> bool {
    forall|i: int| 0 <= i < d.len() ==> is_digit(#[trigger] d[i])
}

/// What `str::parse::<u32>` gives: an optional `+`, then one or more
/// ASCII digits whose value fits in `u32`.
pub open spec fn parse_u32_spec(s: Seq<char>) -> Option<u32> {
    let d = unsigned_part(s);
    if d.len() == 0 || !all_digits(d) {
        None
    } else if digits_value(d) > u32::MAX {
        None
    } else {
        Some(digits_value(d) as u32)
    }
}

/// `decimal(n)` is a non-empty string of digits whose value is `n`.
pub proof fn lemma_decimal_digits(n: nat)
    ensures
        decimal(n).len() >= 1,
        all_digits(decimal(n)),
        digits_value(decimal(n)) == n,
    decreases n,
{
    let d = decimal(n);
    if n < 10 {
        assert(d.drop_last() =~= Seq::<char>::empty());
        assert(d.last() == digit_char(n));
        assert(((digit_char(n) as u32) - ('0' as u32)) as nat == n);
        assert(digits_value(d) == digits_value(d.drop_last()) * 10 + ((d.last() as u32) - ('0' as u32)) as nat);
    } else {
        lemma_decimal_digits(n / 10);
        assert(d.drop_last() =~= decimal(n / 10));
        assert(d.last() == digit_char(n % 10));
        assert(((digit_char(n % 10) as u32) - ('0' as u32)) as nat == n % 10);
        assert(digits_value(d) == digits_value(d.drop_last()) * 10 + ((d.last() as u32) - ('0' as u32)) as nat);
        assert(digits_value(d) == (n / 10) * 10 + n % 10);
        assert forall|i: int| 0 <= i < d.len() implies is_digit(#[trigger] d[i]) by {
            if i < d.len() - 1 {
                assert(d[i] == decimal(n / 10)[i]);
            }
        }
    }
}

proof fn lemma_digits_value_mono(s: Seq<char>, n: int)
    requires
        0 <= n <= s.len(),
        forall|i: int| 0 <= i < s.len() ==> is_digit(#[trigger] s[i]),
    ensures
        digits_value(s.take(n)) <= digits_value(s),
    decreases s.len() - n,
{
    if n < s.len() {
        lemma_digits_value_mono(s, n + 1);
        assert(s.take(n + 1).drop_last() =~= s.take(n));
    } else {
        assert(s.take(n) =~= s);
    }
}

/// Parse `v[from..to]` as `str::parse::<u32>` does.
pub fn parse_u32(v: &Vec<char>, from: usize, to: usize) -> (r: Option<u32>)
    requires
        from <= to <= v@.len(),
    ensures
        r == parse_u32_spec(v@.subrange(from as int, to as int)),
{
    let ghost s = v@.subrange(from as int, to as int);
    let mut i = from;
    if i < to && v[i] == '+' {
        i += 1;
    }
    let ghost d = v@.subrange(i as int, to as int);
    assert(d == unsigned_part(s));
    if i == to {
        return None;
    }
    let mut acc: u64 = 0;
    let mut k = i;
    while k < to
        invariant
            i <= k <= to <= v@.len(),
            i < to,
            d == v@.subrange(i as int, to as int),
            s == v@.subrange(from as int, to as int),
            d == unsigned_part(s),
            forall|j: int| 0 <= j < k - i ==> is_digit(#[trigger] d[j]),
            acc as nat == digits_value(d.take(k - i)),
            acc <= u32::MAX,
        decreases to - k,
    {
        let c = v[k];
        if !('0' <= c && c <= '9') {
            assert(d[k - i] == c);
            assert(!is_digit(d[k - i]));
            assert(!all_digits(d));
            assert(parse_u32_spec(s) == None::<u32>);
            return None;
        }
        let digit = (c as u32 - '0' as u32) as u64;
        proof {
            assert(d.take(k - i + 1).drop_last() =~= d.take(k - i));
            assert(d.take(k - i + 1).last() == c);
        }
        let next = acc * 10 + digit;
        if next > u32::MAX as u64 {
            proof {
                if all_digits(d) {
                    lemma_digits_value_mono(d, k - i + 1);
                    assert(digits_value(d) > u32::MAX);
                }
                assert(parse_u32_spec(s) == None::<u32>);
            }
            return None;
        }
        acc = next;
        k += 1;
    }
    assert(d.take(d.len() as int) =~= d);
    Some(acc as u32)
}

/// How `str`'s `Debug` formatting renders a string: quoted, with special
/// characters escaped.
pub uninterp spec fn debug_quoted(s: Seq<char>) -> Seq<char>;

/// `format!("{:?}", s)` on a string slice.
#[verifier::external_body]
pub fn debug_quote(s: &str) -> (r: String)
    ensures
        r@ == debug_quoted(s@),
{
    format!("{:?}", s)
}

/// Whether two strings have the same characters.
pub fn str_equal(a: &str, b: &str) -> (r: bool)
    ensures
        r == (a@ == b@),
{
    let x = chars_of(a);
    let y = chars_of(b);
    if x.len() != y.len() {
        return false;
    }
    let mut i: usize = 0;
    while i < x.len()
        invariant
            i <= x@.len(),
            x@.len() == y@.len(),
            x@ == a@,
            y@ == b@,
            forall|j: int| 0 <= j < i ==> x@[j] == y@[j],
        decreases x@.len() - i,
    {
        if x[i] != y[i] {
            return false;
        }
        i += 1;
    }
    assert(x@ =~= y@);
    true
}

} // verus!
