//! Character-level string helpers: conversion between `str` and character
//! vectors, whitespace trimming, integer parsing and decimal formatting with
//! the semantics of Rust's standard library, and path joining.

use vstd::prelude::*;

verus! {

/// `String::push` appends one character, as its documentation says.
pub assume_specification[ String::push ](s: &mut String, ch: char)
    ensures
        final(s)@ == old(s)@.push(ch),
;

/// The characters of `s`.
pub fn chars_of(s: &str) -> (v: Vec<char>)
    ensures
        v@ == s@,
{
    let mut v: Vec<char> = Vec::new();
    for c in it: s.chars()
        invariant
            v@ == it.seq().take(it.index() as int),
            it.seq() == s@,
    {
        v.push(c);
    }
    v
}

/// A `String` holding the characters of `v`.
pub fn string_of(v: &[char]) -> (s: String)
    ensures
        s@ == v@,
{
    let mut s = String::new();
    let mut i: usize = 0;
    while i < v.len()
        invariant
            i <= v@.len(),
            s@ == v@.take(i as int),
        decreases v@.len() - i,
    {
        s.push(v[i]);
        proof {
            assert(v@.take(i + 1) =~= v@.take(i as int).push(v@[i as int]));
        }
        i = i + 1;
    }
    proof {
        assert(v@.take(v@.len() as int) =~= v@);
    }
    s
}

/// Whether two character sequences are equal.
pub fn chars_equal(a: &[char], b: &[char]) -> (r: bool)
    ensures
        r == (a@ == b@),
{
    if a.len() != b.len() {
        return false;
    }
    let mut i: usize = 0;
    while i < a.len()
        invariant
            i <= a@.len(),
            a@.len() == b@.len(),
            forall|j: int| 0 <= j < i ==> a@[j] == b@[j],
        decreases a@.len() - i,
    {
        if a[i] != b[i] {
            return false;
        }
        i = i + 1;
    }
    proof {
        assert(a@ =~= b@);
    }
    true
}

/// Whether two strings hold the same characters.
pub fn str_equal(a: &str, b: &str) -> (r: bool)
    ensures
        r == (a@ == b@),
{
    let va = chars_of(a);
    let vb = chars_of(b);
    chars_equal(va.as_slice(), vb.as_slice())
}

/// Unicode `White_Space`, as `char::is_whitespace` defines it.
pub open spec fn is_white_space(c: char) -> bool {
    let n = c as u32;
    (0x9 <= n <= 0xD) || n == 0x20 || n == 0x85 || n == 0xA0 || n == 0x1680 || (0x2000 <= n
        <= 0x200A) || n == 0x2028 || n == 0x2029 || n == 0x202F || n == 0x205F || n == 0x3000
}

/// Whether `c` is white space, as `char::is_whitespace` decides.
pub fn char_is_white_space(c: char) -> (b: bool)
    ensures
        b == is_white_space(c),
{
    let n = c as u32;
    (0x9 <= n && n <= 0xD) || n == 0x20 || n == 0x85 || n == 0xA0 || n == 0x1680 || (0x2000 <= n
        && n <= 0x200A) || n == 0x2028 || n == 0x2029 || n == 0x202F || n == 0x205F || n == 0x3000
}

/// Number of leading whitespace characters of `s`.
pub open spec fn leading_space(s: Seq<char>) -> nat
    decreases s.len(),
{
    if s.len() > 0 && is_white_space(s[0]) {
        1 + leading_space(s.skip(1))
    } else {
        0
    }
}

/// Number of trailing whitespace characters of `s`.
pub open spec fn trailing_space(s: Seq<char>) -> nat
    decreases s.len(),
{
    if s.len() > 0 && is_white_space(s.last()) {
        1 + trailing_space(s.drop_last())
    } else {
        0
    }
}

/// `s` without leading and trailing whitespace, as `str::trim` gives it.
pub open spec fn trimmed(s: Seq<char>) -> Seq<char> {
    let t = s.skip(leading_space(s) as int);
    t.take(t.len() - trailing_space(t))
}

pub(crate) proof fn lemma_leading_space(s: Seq<char>, i: int)
    requires
        0 <= i <= s.len(),
        forall|j: int| 0 <= j < i ==> is_white_space(#[trigger] s[j]),
        i == s.len() || !is_white_space(s[i]),
    ensures
        leading_space(s) == i,
    decreases i,
{
    if i > 0 {
        lemma_leading_space(s.skip(1), i - 1);
    }
}

pub(crate) proof fn lemma_trailing_space(s: Seq<char>, i: int)
    requires
        0 <= i <= s.len(),
        forall|j: int| s.len() - i <= j < s.len() ==> is_white_space(#[trigger] s[j]),
        i == s.len() || !is_white_space(s[s.len() - i - 1]),
    ensures
        trailing_space(s) == i,
    decreases i,
{
    if i > 0 {
        lemma_trailing_space(s.drop_last(), i - 1);
    }
}

/// The characters of `v` from `from` (inclusive) to `to` (exclusive).
pub fn sub_chars(v: &[char], from: usize, to: usize) -> (r: Vec<char>)
    requires
        from <= to <= v@.len(),
    ensures
        r@ == v@.subrange(from as int, to as int),
{
    let mut r: Vec<char> = Vec::new();
    let mut i = from;
    while i < to
        invariant
            from <= i <= to,
            to <= v@.len(),
            r@ == v@.subrange(from as int, i as int),
        decreases to - i,
    {
        r.push(v[i]);
        proof {
            assert(v@.subrange(from as int, i + 1) =~= v@.subrange(from as int, i as int).push(
                v@[i as int],
            ));
        }
        i = i + 1;
    }
    r
}

/// `v` without leading and trailing whitespace.
pub fn trim_chars(v: &[char]) -> (r: Vec<char>)
    ensures
        r@ == trimmed(v@),
{
    let mut lo: usize = 0;
    while lo < v.len() && char_is_white_space(v[lo])
        invariant
            lo <= v@.len(),
            forall|j: int| 0 <= j < lo ==> is_white_space(#[trigger] v@[j]),
        decreases v@.len() - lo,
    {
        lo = lo + 1;
    }
    proof {
        lemma_leading_space(v@, lo as int);
    }
    let ghost t = v@.skip(lo as int);
    let mut hi: usize = v.len();
    while hi > lo && char_is_white_space(v[hi - 1])
        invariant
            lo <= hi <= v@.len(),
            t == v@.skip(lo as int),
            forall|j: int| hi - lo <= j < t.len() ==> is_white_space(#[trigger] t[j]),
        decreases hi,
    {
        hi = hi - 1;
    }
    proof {
        lemma_trailing_space(t, (v@.len() - hi) as int);
        assert(t.take(t.len() - (v@.len() - hi)) =~= v@.subrange(lo as int, hi as int));
    }
    sub_chars(v, lo, hi)
}

/// Value of the digit `c` in `radix` (10 or 16), as `char::to_digit` gives it.
pub open spec fn digit_value(c: char, radix: nat) -> Option<nat> {
    if '0' <= c <= '9' && (c as nat) - ('0' as nat) < radix {
        Some(((c as nat) - ('0' as nat)) as nat)
    } else if radix == 16 && 'a' <= c <= 'f' {
        Some(((c as nat) - ('a' as nat) + 10) as nat)
    } else if radix == 16 && 'A' <= c <= 'F' {
        Some(((c as nat) - ('A' as nat) + 10) as nat)
    } else {
        None
    }
}

/// Value of a non-empty run of digits, or `None` if some character is no digit.
pub open spec fn digits_value(d: Seq<char>, radix: nat) -> Option<nat>
    decreases d.len(),
{
    if d.len() == 0 {
        None
    } else if d.len() == 1 {
        digit_value(d[0], radix)
    } else {
        match (digits_value(d.drop_last(), radix), digit_value(d.last(), radix)) {
            (Some(v), Some(l)) => Some(v * radix + l),
            _ => None,
        }
    }
}

/// Unsigned parse of `s` as `from_str_radix` does it: an optional `+`, then
/// digits; `None` when malformed or above `max`.
pub open spec fn parse_unsigned(s: Seq<char>, radix: nat, max: nat) -> Option<nat> {
    let d = if s.len() > 0 && s[0] == '+' {
        s.skip(1)
    } else {
        s
    };
    match digits_value(d, radix) {
        Some(v) => if v <= max {
            Some(v)
        } else {
            None
        },
        None => None,
    }
}

proof fn lemma_digits_step(d: Seq<char>, i: int, radix: nat)
    requires
        0 < i < d.len(),
    ensures
        digits_value(d.take(i + 1), radix) == match (
            digits_value(d.take(i), radix),
            digit_value(d[i], radix),
        ) {
            (Some(v), Some(l)) => Some(v * radix + l),
            _ => None::<nat>,
        },
{
    assert(d.take(i + 1).drop_last() =~= d.take(i));
}

proof fn lemma_digits_grow(d: Seq<char>, i: int, radix: nat)
    requires
        0 < i <= d.len(),
        radix > 0,
        digits_value(d, radix) is Some,
    ensures
        digits_value(d.take(i), radix) is Some,
        digits_value(d.take(i), radix)->0 <= digits_value(d, radix)->0,
    decreases d.len() - i,
{
    if i < d.len() {
        lemma_digits_grow(d, i + 1, radix);
        lemma_digits_step(d, i, radix);
        let v = digits_value(d.take(i), radix);
        if v is Some {
            assert(v->0 <= v->0 * radix) by (nonlinear_arith)
                requires
                    radix > 0,
            ;
        }
    } else {
        assert(d.take(i) =~= d);
    }
}

/// Parse a run of digits in `radix` (10 or 16) with value at most `max`.
pub fn parse_digits(d: &[char], radix: u32, max: u32) -> (r: Option<u32>)
    requires
        radix == 10 || radix == 16,
    ensures
        r == match digits_value(d@, radix as nat) {
            Some(v) => if v <= max {
                Some(v as u32)
            } else {
                None
            },
            None => None::<u32>,
        },
{
    if d.len() == 0 {
        return None;
    }
    let mut value: u64 = 0;
    let mut i: usize = 0;
    while i < d.len()
        invariant
            i <= d@.len(),
            d@.len() > 0,
            radix == 10 || radix == 16,
            i == 0 ==> value == 0,
            i > 0 ==> digits_value(d@.take(i as int), radix as nat) == Some(value as nat),
            value <= max,
        decreases d@.len() - i,
    {
        let c = d[i];
        let digit: u64 = if '0' <= c && c <= '9' && (c as u32) - ('0' as u32) < radix {
            ((c as u32) - ('0' as u32)) as u64
        } else if radix == 16 && 'a' <= c && c <= 'f' {
            ((c as u32) - ('a' as u32) + 10) as u64
        } else if radix == 16 && 'A' <= c && c <= 'F' {
            ((c as u32) - ('A' as u32) + 10) as u64
        } else {
            proof {
                if i == 0 {
                    lemma_digits_grow_none_first(d@, radix as nat);
                } else {
                    lemma_digits_step(d@, i as int, radix as nat);
                    lemma_digits_none_extends(d@, i + 1, radix as nat);
                }
            }
            return None;
        };
        assert(digit_value(c, radix as nat) == Some(digit as nat));
        let next = value * (radix as u64) + digit;
        proof {
            if i == 0 {
                assert(d@.take(1) =~= seq![d@[0]]);
            } else {
                lemma_digits_step(d@, i as int, radix as nat);
            }
        }
        if next > max as u64 {
            proof {
                if digits_value(d@, radix as nat) is Some {
                    lemma_digits_grow(d@, i + 1, radix as nat);
                }
            }
            return None;
        }
        value = next;
        i = i + 1;
    }
    proof {
        assert(d@.take(d@.len() as int) =~= d@);
    }
    Some(value as u32)
}

proof fn lemma_digits_grow_none_first(d: Seq<char>, radix: nat)
    requires
        d.len() > 0,
        digit_value(d[0], radix) is None,
    ensures
        digits_value(d, radix) is None,
    decreases d.len(),
{
    if d.len() > 1 {
        lemma_digits_grow_none_first(d.drop_last(), radix);
    }
}

proof fn lemma_digits_none_extends(d: Seq<char>, i: int, radix: nat)
    requires
        0 < i <= d.len(),
        digits_value(d.take(i), radix) is None,
    ensures
        digits_value(d, radix) is None,
    decreases d.len() - i,
{
    if i < d.len() {
        lemma_digits_step(d, i, radix);
        lemma_digits_none_extends(d, i + 1, radix);
    } else {
        assert(d.take(i) =~= d);
    }
}

/// Unsigned parse with the semantics of `from_str_radix` (radix 10 or 16).
pub fn parse_unsigned_chars(s: &[char], radix: u32, max: u32) -> (r: Option<u32>)
    requires
        radix == 10 || radix == 16,
    ensures
        r == match parse_unsigned(s@, radix as nat, max as nat) {
            Some(v) => Some(v as u32),
            None => None::<u32>,
        },
{
    if s.len() > 0 && s[0] == '+' {
        let d = sub_chars(s, 1, s.len());
        assert(d@ =~= s@.skip(1));
        parse_digits(d.as_slice(), radix, max)
    } else {
        parse_digits(s, radix, max)
    }
}

/// Decimal digits of `n`, as `Display` writes an unsigned integer.
pub open spec fn decimal(n: nat) -> Seq<char>
    decreases n,
{
    if n < 10 {
        seq![(('0' as nat) + n) as char]
    } else {
        decimal(n / 10).push((('0' as nat) + n % 10) as char)
    }
}

/// Every character of `s` is ASCII.
pub open spec fn is_ascii_text(s: Seq<char>) -> bool {
    forall|i: int| 0 <= i < s.len() ==> (#[trigger] s[i] as u32) < 128
}

/// `c` is an ASCII decimal digit.
pub open spec fn is_ascii_digit(c: char) -> bool {
    '0' <= c <= '9'
}

/// The characters of `decimal(n)` are ASCII digits that read back as `n`.
pub proof fn lemma_decimal_digits(n: nat)
    ensures
        decimal(n).len() > 0,
        forall|i: int| 0 <= i < decimal(n).len() ==> is_ascii_digit(#[trigger] decimal(n)[i]),
        digits_value(decimal(n), 10) == Some(n),
    decreases n,
{
    if n >= 10 {
        lemma_decimal_digits(n / 10);
        assert(decimal(n).drop_last() =~= decimal(n / 10));
    }
}

/// Every character of `s` is an ASCII digit.
pub open spec fn all_digits(s: Seq<char>) -> bool {
    forall|i: int| 0 <= i < s.len() ==> is_ascii_digit(#[trigger] s[i])
}

/// `decimal(n)` padded on the left with zeros to at least `width` characters,
/// as `format!("{:0width$}", n)` writes it.
pub open spec fn zero_padded(n: nat, width: nat) -> Seq<char> {
    let d = decimal(n);
    if d.len() >= width {
        d
    } else {
        Seq::new((width - d.len()) as nat, |i: int| '0') + d
    }
}

/// `zero_padded(n, width)` is a non-empty run of ASCII digits.
pub proof fn lemma_zero_padded_digits(n: nat, width: nat)
    ensures
        zero_padded(n, width).len() > 0,
        all_digits(zero_padded(n, width)),
{
    lemma_decimal_digits(n);
    let d = decimal(n);
    if d.len() < width {
        let z = Seq::new((width - d.len()) as nat, |i: int| '0');
        assert forall|i: int| 0 <= i < (z + d).len() implies is_ascii_digit(#[trigger] (z + d)[i]) by {
            if i >= z.len() {
                assert((z + d)[i] == d[i - z.len()]);
            }
        }
    }
}

/// Decimal digits of `n`.
pub fn decimal_chars(n: u64) -> (r: Vec<char>)
    ensures
        r@ == decimal(n as nat),
    decreases n,
{
    if n < 10 {
        let c = char_of_digit(n as u32);
        let mut v = Vec::new();
        v.push(c);
        proof {
            assert(v@ =~= seq![(('0' as nat) + n) as char]);
        }
        v
    } else {
        let mut v = decimal_chars(n / 10);
        v.push(char_of_digit((n % 10) as u32));
        v
    }
}

fn char_of_digit(d: u32) -> (c: char)
    requires
        d < 10,
    ensures
        c == (('0' as nat) + d) as char,
{
    if d == 0 {
        '0'
    } else if d == 1 {
        '1'
    } else if d == 2 {
        '2'
    } else if d == 3 {
        '3'
    } else if d == 4 {
        '4'
    } else if d == 5 {
        '5'
    } else if d == 6 {
        '6'
    } else if d == 7 {
        '7'
    } else if d == 8 {
        '8'
    } else {
        '9'
    }
}

/// Decimal digits of `n`, zero-padded to at least `width` characters.
pub fn zero_padded_chars(n: u64, width: usize) -> (r: Vec<char>)
    ensures
        r@ == zero_padded(n as nat, width as nat),
{
    let d = decimal_chars(n);
    if d.len() >= width {
        return d;
    }
    let mut r: Vec<char> = Vec::new();
    let pad = width - d.len();
    let mut i: usize = 0;
    while i < pad
        invariant
            i <= pad,
            r@ == Seq::new(i as nat, |k: int| '0'),
        decreases pad - i,
    {
        r.push('0');
        proof {
            assert(r@ =~= Seq::new((i + 1) as nat, |k: int| '0'));
        }
        i = i + 1;
    }
    let mut j: usize = 0;
    while j < d.len()
        invariant
            j <= d@.len(),
            r@ == Seq::new(pad as nat, |k: int| '0') + d@.take(j as int),
        decreases d@.len() - j,
    {
        r.push(d[j]);
        proof {
            assert(d@.take(j + 1) =~= d@.take(j as int).push(d@[j as int]));
            assert(r@ =~= Seq::new(pad as nat, |k: int| '0') + d@.take(j + 1));
        }
        j = j + 1;
    }
    proof {
        assert(d@.take(d@.len() as int) =~= d@);
    }
    r
}

/// The lowercase hexadecimal digit of `d` (below 16).
pub open spec fn hex_digit(d: nat) -> char {
    if d < 10 {
        (('0' as nat) + d) as char
    } else {
        (('a' as nat) + d - 10) as char
    }
}

/// Lowercase hexadecimal digits of `n`, as `{:x}` writes an unsigned integer.
pub open spec fn hex(n: nat) -> Seq<char>
    decreases n,
{
    if n < 16 {
        seq![hex_digit(n)]
    } else {
        hex(n / 16).push(hex_digit(n % 16))
    }
}

fn hex_digit_char(d: u32) -> (c: char)
    requires
        d < 16,
    ensures
        c == hex_digit(d as nat),
{
    if d < 10 {
        char_of_digit(d)
    } else if d == 10 {
        'a'
    } else if d == 11 {
        'b'
    } else if d == 12 {
        'c'
    } else if d == 13 {
        'd'
    } else if d == 14 {
        'e'
    } else {
        'f'
    }
}

/// Lowercase hexadecimal digits of `n`.
pub fn hex_chars(n: u32) -> (r: Vec<char>)
    ensures
        r@ == hex(n as nat),
    decreases n,
{
    if n < 16 {
        let mut v = Vec::new();
        v.push(hex_digit_char(n));
        proof {
            assert(v@ =~= seq![hex_digit(n as nat)]);
        }
        v
    } else {
        let mut v = hex_chars(n / 16);
        v.push(hex_digit_char(n % 16));
        v
    }
}

/// Append the characters of `b` to `a`.
pub fn push_all(a: &mut Vec<char>, b: &[char])
    ensures
        final(a)@ == old(a)@ + b@,
{
    let mut i: usize = 0;
    while i < b.len()
        invariant
            i <= b@.len(),
            a@ == old(a)@ + b@.take(i as int),
        decreases b@.len() - i,
    {
        a.push(b[i]);
        proof {
            assert(b@.take(i + 1) =~= b@.take(i as int).push(b@[i as int]));
        }
        i = i + 1;
    }
    proof {
        assert(b@.take(b@.len() as int) =~= b@);
    }
}

/// `base` joined with the relative or absolute path `name`, as
/// `PathBuf::join` does it on Unix: an absolute `name` replaces `base`;
/// otherwise a `/` separates them unless `base` is empty or ends in `/`.
pub open spec fn joined(base: Seq<char>, name: Seq<char>) -> Seq<char> {
    if name.len() > 0 && name[0] == '/' {
        name
    } else if base.len() == 0 || base.last() == '/' {
        base + name
    } else {
        base + seq!['/'] + name
    }
}

/// Path join with the semantics of `joined`.
pub fn join_path(base: &str, name: &str) -> (r: String)
    ensures
        r@ == joined(base@, name@),
{
    let b = chars_of(base);
    let n = chars_of(name);
    let mut out: Vec<char>;
    if n.len() > 0 && n[0] == '/' {
        out = n;
    } else {
        out = b;
        if out.len() > 0 && out[out.len() - 1] != '/' {
            out.push('/');
        }
        push_all(&mut out, n.as_slice());
    }
    string_of(out.as_slice())
}

} // verus!
