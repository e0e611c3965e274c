//! Conversions between strings and their UTF-8 bytes.
use vstd::prelude::*;
use vstd::string::*;
use vstd::utf8::*;

verus! {

broadcast use vstd::utf8::group_utf8_lib;

/// The UTF-8 bytes of a string.
pub fn string_as_bytes(s: &String) -> (r: &[u8])
    ensures
        r@ == encode_utf8(s@),
{
    s.as_str().as_bytes()
}

/// `String::from_utf8`: succeeds exactly on valid UTF-8, and the string it
/// returns has those bytes as its encoding.
#[verifier::external_body]
fn std_string_from_utf8(bytes: Vec<u8>) -> (r: Option<String>)
    ensures
        r is Some <==> valid_utf8(bytes@),
        r matches Some(s) ==> encode_utf8(s@) == bytes@,
{
    String::from_utf8(bytes).ok()
}

/// Decodes UTF-8 bytes into a string, or `None` when they are not UTF-8.
pub fn string_from_utf8(bytes: Vec<u8>) -> (r: Option<String>)
    ensures
        r is Some <==> valid_utf8(bytes@),
        r matches Some(s) ==> s@ == decode_utf8(bytes@),
{
    let ghost b = bytes@;
    let r = std_string_from_utf8(bytes);
    proof {
        if r is Some {
            encode_utf8_decode_utf8(r->Some_0@);
        }
    }
    r
}

/// `String::push` appends one character.
pub assume_specification[ String::push ](s: &mut String, ch: char)
    ensures
        final(s)@ == old(s)@.push(ch),
;

/// The characters of a string, in order.
pub fn chars_of(s: &str) -> (r: Vec<char>)
    ensures
        r@ == s@,
{
    let mut out: Vec<char> = Vec::new();
    for c in it: s.chars()
        invariant
            out@ == it.seq().take(it.index() as int),
            it.seq() == s@,
    {
        out.push(c);
        assert(out@ =~= it.seq().take(it.index() + 1));
    }
    assert(out@ =~= s@);
    out
}

/// A string made of these characters.
pub fn string_of_chars(cs: &[char]) -> (r: String)
    ensures
        r@ == cs@,
{
    let mut out = String::new();
    let mut i: usize = 0;
    while i < cs.len()
        invariant
            0 <= i <= cs@.len(),
            out@ == cs@.take(i as int),
        decreases cs@.len() - i,
    {
        out.push(cs[i]);
        assert(out@ =~= cs@.take(i + 1));
        i += 1;
    }
    assert(out@ =~= cs@);
    out
}

// ---------------------------------------------------------------------------
// Character classes and trimming
// ---------------------------------------------------------------------------
/// The characters with the Unicode `White_Space` property, those
/// `char::is_whitespace` accepts.
pub open spec fn is_unicode_whitespace(c: char) -> bool {
    ||| ('\u{9}' <= c <= '\u{d}')
    ||| c == ' '
    ||| c == '\u{85}'
    ||| c == '\u{a0}'
    ||| c == '\u{1680}'
    ||| ('\u{2000}' <= c <= '\u{200a}')
    ||| c == '\u{2028}'
    ||| c == '\u{2029}'
    ||| c == '\u{202f}'
    ||| c == '\u{205f}'
    ||| c == '\u{3000}'
}

pub fn is_whitespace(c: char) -> (r: bool)
    ensures
        r == is_unicode_whitespace(c),
{
    ('\u{9}' <= c && c <= '\u{d}') || c == ' ' || c == '\u{85}' || c == '\u{a0}' || c
        == '\u{1680}' || ('\u{2000}' <= c && c <= '\u{200a}') || c == '\u{2028}' || c
        == '\u{2029}' || c == '\u{202f}' || c == '\u{205f}' || c == '\u{3000}'
}

/// Space or horizontal tab, the blanks HTTP allows around header values.
pub open spec fn is_http_space(c: char) -> bool {
    c == ' ' || c == '\t'
}

/// The string without the characters of class `ws` at its start.
pub open spec fn trim_start_by(s: Seq<char>, ws: spec_fn(char) -> bool) -> Seq<char>
    decreases s.len(),
{
    if s.len() > 0 && ws(s[0]) {
        trim_start_by(s.drop_first(), ws)
    } else {
        s
    }
}

/// The string without the characters of class `ws` at its end.
pub open spec fn trim_end_by(s: Seq<char>, ws: spec_fn(char) -> bool) -> Seq<char>
    decreases s.len(),
{
    if s.len() > 0 && ws(s.last()) {
        trim_end_by(s.drop_last(), ws)
    } else {
        s
    }
}

/// The string without the characters of class `ws` at either end.
pub open spec fn trim_by(s: Seq<char>, ws: spec_fn(char) -> bool) -> Seq<char> {
    trim_end_by(trim_start_by(s, ws), ws)
}

/// `str::trim`: the string without whitespace at either end.
pub open spec fn spec_trim(s: Seq<char>) -> Seq<char> {
    trim_by(s, |c: char| is_unicode_whitespace(c))
}

proof fn lemma_trim_start_skip(s: Seq<char>, ws: spec_fn(char) -> bool, i: int)
    requires
        0 <= i <= s.len(),
        forall|k: int| 0 <= k < i ==> #[trigger] ws(s[k]),
    ensures
        trim_start_by(s, ws) == trim_start_by(s.skip(i), ws),
    decreases i,
{
    if i > 0 {
        assert(s.drop_first().skip(i - 1) =~= s.skip(i));
        assert forall|k: int| 0 <= k < i - 1 implies #[trigger] ws(s.drop_first()[k]) by {
            assert(ws(s[k + 1]));
        }
        lemma_trim_start_skip(s.drop_first(), ws, i - 1);
    } else {
        assert(s.skip(0) =~= s);
    }
}

proof fn lemma_trim_end_take(s: Seq<char>, ws: spec_fn(char) -> bool, j: int)
    requires
        0 <= j <= s.len(),
        forall|k: int| j <= k < s.len() ==> #[trigger] ws(s[k]),
    ensures
        trim_end_by(s, ws) == trim_end_by(s.take(j), ws),
    decreases s.len() - j,
{
    if j < s.len() {
        assert(s.drop_last().take(j) =~= s.take(j));
        assert forall|k: int| j <= k < s.drop_last().len() implies #[trigger] ws(
            s.drop_last()[k],
        ) by {
            assert(ws(s[k]));
        }
        lemma_trim_end_take(s.drop_last(), ws, j);
    } else {
        assert(s.take(j) =~= s);
    }
}

/// The bounds `[i, j)` of `s` with the characters of class `ws` trimmed
/// from both ends: every character outside is of the class, and the
/// characters at the bounds are not.
pub proof fn lemma_trim_bounds(s: Seq<char>, ws: spec_fn(char) -> bool, i: int, j: int)
    requires
        0 <= i <= j <= s.len(),
        forall|k: int| 0 <= k < i ==> #[trigger] ws(s[k]),
        forall|k: int| j <= k < s.len() ==> #[trigger] ws(s[k]),
        i < j ==> !ws(s[i]) && !ws(s[j - 1]),
        i == j ==> j == s.len(),
    ensures
        trim_by(s, ws) == s.subrange(i, j),
{
    lemma_trim_start_skip(s, ws, i);
    let t = s.skip(i);
    if i < s.len() {
        assert(!ws(t[0]));
    }
    assert(trim_start_by(t, ws) == t);
    assert forall|k: int| j - i <= k < t.len() implies #[trigger] ws(t[k]) by {
        assert(ws(s[k + i]));
    }
    lemma_trim_end_take(t, ws, j - i);
    let u = t.take(j - i);
    if i < j {
        assert(u.last() == s[j - 1]);
    }
    assert(trim_end_by(u, ws) == u);
    assert(u =~= s.subrange(i, j));
}

fn is_trim_char(c: char, http_only: bool) -> (r: bool)
    ensures
        r == if http_only {
            is_http_space(c)
        } else {
            is_unicode_whitespace(c)
        },
{
    if http_only {
        c == ' ' || c == '\t'
    } else {
        is_whitespace(c)
    }
}

/// The bounds of `s` without the characters `ws` accepts at either end.
pub(crate) fn trim_bounds(s: &Vec<char>, Ghost(ws): Ghost<spec_fn(char) -> bool>, http_only: bool) -> (r: (usize, usize))
    requires
        http_only ==> (forall|c: char| #[trigger] ws(c) == is_http_space(c)),
        !http_only ==> (forall|c: char| #[trigger] ws(c) == is_unicode_whitespace(c)),
    ensures
        r.0 <= r.1 <= s@.len(),
        trim_by(s@, ws) == s@.subrange(r.0 as int, r.1 as int),
{
    let n = s.len();
    let mut i: usize = 0;
    while i < n && is_trim_char(s[i], http_only)
        invariant
            i <= n,
            n == s@.len(),
            http_only ==> (forall|c: char| #[trigger] ws(c) == is_http_space(c)),
            !http_only ==> (forall|c: char| #[trigger] ws(c) == is_unicode_whitespace(c)),
            forall|k: int| 0 <= k < i ==> #[trigger] ws(s@[k]),
        decreases n - i,
    {
        assert(ws(s@[i as int]));
        i += 1;
    }
    let mut j: usize = n;
    while j > i && is_trim_char(s[j - 1], http_only)
        invariant
            i <= j <= n,
            n == s@.len(),
            http_only ==> (forall|c: char| #[trigger] ws(c) == is_http_space(c)),
            !http_only ==> (forall|c: char| #[trigger] ws(c) == is_unicode_whitespace(c)),
            forall|k: int| 0 <= k < i ==> #[trigger] ws(s@[k]),
            forall|k: int| j <= k < n ==> #[trigger] ws(s@[k]),
            i < n ==> !ws(s@[i as int]),
        decreases j - i,
    {
        assert(ws(s@[j - 1]));
        j -= 1;
    }
    proof {
        lemma_trim_bounds(s@, ws, i as int, j as int);
    }
    (i, j)
}

/// `str::trim`.
pub fn trim(s: &str) -> (r: String)
    ensures
        r@ == spec_trim(s@),
{
    let cs = chars_of(s);
    let (i, j) = trim_bounds(&cs, Ghost(|c: char| is_unicode_whitespace(c)), false);
    string_of_chars(vstd::slice::slice_subrange(cs.as_slice(), i, j))
}

/// The string with spaces and tabs trimmed from both ends.
pub fn trim_http_spaces(s: &str) -> (r: String)
    ensures
        r@ == trim_by(s@, |c: char| is_http_space(c)),
{
    let cs = chars_of(s);
    let (i, j) = trim_bounds(&cs, Ghost(|c: char| is_http_space(c)), true);
    string_of_chars(vstd::slice::slice_subrange(cs.as_slice(), i, j))
}

/// ASCII letters in lower case; every other character unchanged.
pub open spec fn ascii_lower(c: char) -> char {
    if 'A' <= c <= 'Z' {
        ((c as int) + 32) as char
    } else {
        c
    }
}

/// `str::eq_ignore_ascii_case`.
pub open spec fn eq_ignore_ascii_case(a: Seq<char>, b: Seq<char>) -> bool {
    a.len() == b.len() && forall|i: int| 0 <= i < a.len() ==> ascii_lower(#[trigger] a[i])
        == ascii_lower(b[i])
}

fn to_ascii_lower(c: char) -> (r: char)
    ensures
        r == ascii_lower(c),
{
    if 'A' <= c && c <= 'Z' {
        ((c as u8) + 32) as char
    } else {
        c
    }
}

pub fn str_eq_ignore_ascii_case(a: &str, b: &str) -> (r: bool)
    ensures
        r == eq_ignore_ascii_case(a@, b@),
{
    let x = chars_of(a);
    let y = chars_of(b);
    if x.len() != y.len() {
        return false;
    }
    let mut i: usize = 0;
    while i < x.len()
        invariant
            0 <= i <= x@.len(),
            x@.len() == y@.len(),
            x@ == a@,
            y@ == b@,
            forall|k: int| 0 <= k < i ==> ascii_lower(#[trigger] x@[k]) == ascii_lower(y@[k]),
        decreases x@.len() - i,
    {
        if to_ascii_lower(x[i]) != to_ascii_lower(y[i]) {
            return false;
        }
        i += 1;
    }
    true
}

/// The part of a string before the first `sep`, or all of it.
pub open spec fn first_segment(s: Seq<char>, sep: char) -> Seq<char>
    decreases s.len(),
{
    if s.len() == 0 {
        s
    } else if s[0] == sep {
        seq![]
    } else {
        seq![s[0]] + first_segment(s.drop_first(), sep)
    }
}

/// The first segment ends at the first separator.
pub proof fn lemma_first_segment_at(s: Seq<char>, sep: char, i: int)
    requires
        0 <= i <= s.len(),
        forall|k: int| 0 <= k < i ==> #[trigger] s[k] != sep,
        i == s.len() || s[i] == sep,
    ensures
        first_segment(s, sep) == s.take(i),
    decreases s.len(),
{
    if s.len() > 0 && i > 0 {
        assert forall|k: int| 0 <= k < i - 1 implies #[trigger] s.drop_first()[k] != sep by {
            assert(s[k + 1] != sep);
        }
        lemma_first_segment_at(s.drop_first(), sep, i - 1);
        assert(seq![s[0]] + s.drop_first().take(i - 1) =~= s.take(i));
    } else {
        assert(s.take(i) =~= Seq::<char>::empty());
    }
}

/// The part of a string before the first `sep`, or all of it.
pub fn split_first(s: &str, sep: char) -> (r: String)
    ensures
        r@ == first_segment(s@, sep),
{
    let cs = chars_of(s);
    let mut i: usize = 0;
    while i < cs.len() && cs[i] != sep
        invariant
            i <= cs@.len(),
            forall|k: int| 0 <= k < i ==> #[trigger] cs@[k] != sep,
        decreases cs@.len() - i,
    {
        i += 1;
    }
    proof {
        lemma_first_segment_at(cs@, sep, i as int);
    }
    string_of_chars(vstd::slice::slice_subrange(cs.as_slice(), 0, i))
}

// ---------------------------------------------------------------------------
// Decimal numbers
// ---------------------------------------------------------------------------
pub open spec fn is_digit(c: char) -> bool {
    '0' <= c <= '9'
}

pub open spec fn all_digits(s: Seq<char>) -> bool {
    forall|i: int| 0 <= i < s.len() ==> #[trigger] is_digit(s[i])
}

pub open spec fn digit_value(c: char) -> nat {
    (c as int - '0' as int) as nat
}

/// The value of a string of decimal digits.
pub open spec fn digits_value(s: Seq<char>) -> nat
    decreases s.len(),
{
    if s.len() == 0 {
        0
    } else {
        digits_value(s.drop_last()) * 10 + digit_value(s.last())
    }
}

/// What `FromStr` of an unsigned integer type whose largest value is `max`
/// accepts: an optional `+`, then one or more ASCII digits whose value is
/// at most `max`.
pub open spec fn spec_parse_uint(s: Seq<char>, max: nat) -> Option<nat> {
    let d = if s.len() > 0 && s[0] == '+' {
        s.skip(1)
    } else {
        s
    };
    if d.len() > 0 && all_digits(d) && digits_value(d) <= max {
        Some(digits_value(d))
    } else {
        None
    }
}

/// The digit character of `d < 10`.
pub open spec fn digit_char(d: nat) -> char {
    ('0' as int + d) as char
}

/// The shortest decimal writing of `n`.
pub open spec fn spec_decimal(n: nat) -> Seq<char>
    decreases n,
{
    if n < 10 {
        seq![digit_char(n)]
    } else {
        spec_decimal(n / 10).push(digit_char(n % 10))
    }
}

proof fn lemma_digits_value_prefix(s: Seq<char>, k: int)
    requires
        all_digits(s),
        0 <= k <= s.len(),
    ensures
        digits_value(s.take(k)) <= digits_value(s),
    decreases s.len(),
{
    if k < s.len() {
        assert(s.drop_last().take(k) =~= s.take(k));
        assert(all_digits(s.drop_last())) by {
            assert forall|i: int| 0 <= i < s.drop_last().len() implies #[trigger] is_digit(
                s.drop_last()[i],
            ) by {
                assert(is_digit(s[i]));
            }
        }
        lemma_digits_value_prefix(s.drop_last(), k);
    } else {
        assert(s.take(k) =~= s);
    }
}

/// Reads an unsigned decimal number no larger than `max`, as `FromStr` does.
fn parse_uint(s: &str, max: u64) -> (r: Option<u64>)
    requires
        max >= 9,
    ensures
        match spec_parse_uint(s@, max as nat) {
            Some(v) => r == Some(v as u64),
            None => r is None,
        },
{
    let cs = chars_of(s);
    let start: usize = if cs.len() > 0 && cs[0] == '+' {
        1
    } else {
        0
    };
    let ghost d = cs@.skip(start as int);
    assert(d == (if s@.len() > 0 && s@[0] == '+' {
        s@.skip(1)
    } else {
        s@
    }));
    if cs.len() == start {
        return None;
    }
    let mut value: u64 = 0;
    let mut i: usize = start;
    assert(d.take(0) =~= Seq::<char>::empty());
    while i < cs.len()
        invariant
            start <= i <= cs@.len(),
            cs@ == s@,
            max >= 9,
            d == cs@.skip(start as int),
            d == (if s@.len() > 0 && s@[0] == '+' {
                s@.skip(1)
            } else {
                s@
            }),
            value as nat == digits_value(d.take(i - start)),
            value <= max,
            all_digits(d.take(i - start)),
        decreases cs@.len() - i,
    {
        let c = cs[i];
        assert(d[i - start] == c);
        if c < '0' || c > '9' {
            assert(!all_digits(d)) by {
                assert(!is_digit(d[i - start]));
            }
            assert(spec_parse_uint(s@, max as nat) is None);
            return None;
        }
        let dv = (c as u32 - '0' as u32) as u64;
        let ghost t = d.take(i - start + 1);
        assert(t.drop_last() =~= d.take(i - start));
        assert(t.last() == c);
        assert(all_digits(t)) by {
            assert forall|k: int| 0 <= k < t.len() implies #[trigger] is_digit(t[k]) by {
                if k < t.len() - 1 {
                    assert(t[k] == d.take(i - start)[k]);
                }
            }
        }
        if value > (max - dv) / 10 {
            assert(digits_value(t) > max) by (nonlinear_arith)
                requires
                    digits_value(t) == value * 10 + dv,
                    value > (max - dv) / 10,
                    dv <= 9,
                    dv <= max || value > 0,
            {
            }
            proof {
                if all_digits(d) {
                    lemma_digits_value_prefix(d, i - start + 1);
                }
            }
            return None;
        }
        assert(value * 10 + dv <= max) by (nonlinear_arith)
            requires
                value <= (max - dv) / 10,
                dv <= max,
        {
        }
        value = value * 10 + dv;
        i += 1;
    }
    assert(d.take(i - start) =~= d);
    Some(value)
}

/// Reads a `u16` as `u16::from_str` does.
pub fn parse_u16(s: &str) -> (r: Option<u16>)
    ensures
        match spec_parse_uint(s@, u16::MAX as nat) {
            Some(v) => r == Some(v as u16),
            None => r is None,
        },
{
    match parse_uint(s, u16::MAX as u64) {
        Some(v) => Some(v as u16),
        None => None,
    }
}

/// Reads a `u32` as `u32::from_str` does.
pub fn parse_u32(s: &str) -> (r: Option<u32>)
    ensures
        match spec_parse_uint(s@, u32::MAX as nat) {
            Some(v) => r == Some(v as u32),
            None => r is None,
        },
{
    match parse_uint(s, u32::MAX as u64) {
        Some(v) => Some(v as u32),
        None => None,
    }
}

/// Appends the decimal writing of `n`.
pub fn push_decimal(out: &mut String, n: u64)
    ensures
        final(out)@ == old(out)@ + spec_decimal(n as nat),
    decreases n,
{
    if n >= 10 {
        push_decimal(out, n / 10);
    }
    let d = (n % 10) as u8;
    let c = (48u8 + d) as char;
    assert(c == digit_char((n % 10) as nat));
    out.push(c);
    assert(final(out)@ =~= old(out)@ + spec_decimal(n as nat));
}

proof fn lemma_decimal_digits(n: nat)
    ensures
        spec_decimal(n).len() > 0,
        all_digits(spec_decimal(n)),
        digits_value(spec_decimal(n)) == n,
        spec_decimal(n)[0] != '+',
    decreases n,
{
    assert(digit_value(digit_char(n % 10)) == n % 10);
    if n < 10 {
        let s = spec_decimal(n);
        assert(s.drop_last() =~= Seq::<char>::empty());
        assert(n % 10 == n);
        assert(s.last() == digit_char(n));
        assert(digits_value(s) == digits_value(s.drop_last()) * 10 + digit_value(s.last()));
        assert(digits_value(s.drop_last()) == 0);
    } else {
        lemma_decimal_digits(n / 10);
        let s = spec_decimal(n);
        assert(s.last() == digit_char(n % 10));
        assert(n == (n / 10) * 10 + n % 10);
        assert(s.drop_last() =~= spec_decimal(n / 10));
        assert forall|i: int| 0 <= i < s.len() implies #[trigger] is_digit(s[i]) by {
            if i < s.len() - 1 {
                assert(s[i] == spec_decimal(n / 10)[i]);
            }
        }
    }
}

/// The decimal writing of a number is a non-empty string of digits.
pub proof fn lemma_decimal_facts(n: nat)
    ensures
        spec_decimal(n).len() > 0,
        all_digits(spec_decimal(n)),
{
    lemma_decimal_digits(n);
}

/// Reading back the decimal writing of a number gives the number.
pub proof fn lemma_decimal_roundtrip(n: nat, max: nat)
    requires
        n <= max,
    ensures
        spec_parse_uint(spec_decimal(n), max) == Some(n),
{
    lemma_decimal_digits(n);
}

// ---------------------------------------------------------------------------
// Splitting
// ---------------------------------------------------------------------------
/// The pieces of a string between the separators, in order; a string with
/// no separator is one piece.
pub open spec fn split_all(s: Seq<char>, sep: char) -> Seq<Seq<char>>
    decreases s.len(),
{
    if s.len() == 0 {
        seq![seq![]]
    } else {
        let prev = split_all(s.drop_last(), sep);
        if s.last() == sep {
            prev.push(seq![])
        } else {
            prev.update(prev.len() - 1, prev.last().push(s.last()))
        }
    }
}

pub open spec fn pieces_view(v: Seq<Vec<char>>) -> Seq<Seq<char>> {
    v.map_values(|p: Vec<char>| p@)
}

pub fn split_pieces(cs: &Vec<char>, sep: char) -> (r: Vec<Vec<char>>)
    ensures
        pieces_view(r@) == split_all(cs@, sep),
{
    let mut parts: Vec<Vec<char>> = Vec::new();
    parts.push(Vec::new());
    let mut i: usize = 0;
    assert(cs@.take(0) =~= Seq::<char>::empty());
    assert(pieces_view(parts@) =~= seq![Seq::<char>::empty()]);
    while i < cs.len()
        invariant
            0 <= i <= cs@.len(),
            pieces_view(parts@) == split_all(cs@.take(i as int), sep),
            parts@.len() >= 1,
        decreases cs@.len() - i,
    {
        let c = cs[i];
        let ghost prev = pieces_view(parts@);
        assert(cs@.take(i + 1).drop_last() =~= cs@.take(i as int));
        assert(cs@.take(i + 1).last() == c);
        if c == sep {
            parts.push(Vec::new());
            assert(pieces_view(parts@) =~= prev.push(Seq::<char>::empty()));
        } else {
            let last = parts.len() - 1;
            parts[last].push(c);
            assert(pieces_view(parts@) =~= prev.update(prev.len() - 1, prev.last().push(c)));
        }
        i += 1;
    }
    assert(cs@.take(i as int) =~= cs@);
    parts
}

} // verus!
