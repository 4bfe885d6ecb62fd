//! Screenshot file names: the custom tokens `%N`, `%n` (a counter) and `%w`
//! (the window name), the extension, and the names tried when a file exists.

use std::fmt::Write;
use vstd::prelude::*;
use crate::text::{
    all_digits, chars_of, decimal, decimal_chars, is_ascii_digit, is_ascii_text, join_path, joined, lemma_zero_padded_digits,
    push_all, string_of, zero_padded, zero_padded_chars,
};

verus! {

broadcast use vstd::string::group_string_axioms;

/// Settings for file name generation.
pub struct NamingConfig {
    /// File name pattern.
    pub pattern: String,
    /// Window name, for the `%w` token.
    pub window_name: Option<String>,
}

impl Default for NamingConfig {
    fn default() -> (r: Self)
        ensures
            r.pattern@ == "screenshot-%Y%m%d-%H%M%S"@,
            r.window_name is None,
    {
        NamingConfig { pattern: "screenshot-%Y%m%d-%H%M%S".to_string(), window_name: None }
    }
}

/// The counter behind `%N` and `%n`: each use takes the current value and
/// advances it by one, wrapping at `u32::MAX`.
pub struct NameCounter {
    /// The value the next use takes.
    pub next: u32,
}

/// The counter value after `v`, wrapping to 0 after `u32::MAX`.
pub open spec fn wrapping_next(v: u32) -> u32 {
    if v == u32::MAX {
        0
    } else {
        (v + 1) as u32
    }
}

impl NameCounter {
    /// A counter that starts at 1.
    pub fn new() -> (c: Self)
        ensures
            c.next == 1,
    {
        NameCounter { next: 1 }
    }

    /// Take the current value and advance the counter.
    pub fn take(&mut self) -> (v: u32)
        ensures
            v == old(self).next,
            final(self).next == wrapping_next(old(self).next),
    {
        let v = self.next;
        self.next = self.next.wrapping_add(1);
        v
    }
}

/// `pat` occurs in `s` at position `i`.
pub open spec fn occurs_at(s: Seq<char>, pat: Seq<char>, i: int) -> bool {
    0 <= i && i + pat.len() <= s.len() && s.subrange(i, i + pat.len()) == pat
}

/// `pat` occurs somewhere in `s`.
pub open spec fn occurs(s: Seq<char>, pat: Seq<char>) -> bool {
    exists|i: int| #[trigger] occurs_at(s, pat, i)
}

/// `s` with every occurrence of the non-empty `pat` replaced by `rep`,
/// scanning from the left and never overlapping, as `str::replace` does.
pub open spec fn replaced(s: Seq<char>, pat: Seq<char>, rep: Seq<char>) -> Seq<char>
    decreases s.len(),
{
    if pat.len() == 0 || s.len() < pat.len() {
        s
    } else if s.take(pat.len() as int) == pat {
        rep + replaced(s.skip(pat.len() as int), pat, rep)
    } else {
        seq![s[0]] + replaced(s.skip(1), pat, rep)
    }
}

/// Whether `pat` occurs in `s` at position `i`.
fn matches_at(s: &[char], pat: &[char], i: usize) -> (b: bool)
    requires
        i <= s@.len(),
    ensures
        b == occurs_at(s@, pat@, i as int),
{
    if pat.len() > s.len() - i {
        return false;
    }
    let mut k: usize = 0;
    while k < pat.len()
        invariant
            i + pat@.len() <= s@.len(),
            s@.len() <= usize::MAX,
            k <= pat@.len(),
            forall|j: int| 0 <= j < k ==> s@[i + j] == pat@[j],
        decreases pat@.len() - k,
    {
        if s[i + k] != pat[k] {
            assert(s@.subrange(i as int, i + pat@.len())[k as int] != pat@[k as int]);
            return false;
        }
        k = k + 1;
    }
    assert(s@.subrange(i as int, i + pat@.len()) =~= pat@);
    true
}

/// Whether `pat` occurs in `s`.
pub fn contains_chars(s: &[char], pat: &[char]) -> (b: bool)
    ensures
        b == occurs(s@, pat@),
{
    let mut i: usize = 0;
    while i < s.len()
        invariant
            i <= s@.len(),
            forall|j: int| 0 <= j < i ==> !#[trigger] occurs_at(s@, pat@, j),
        decreases s@.len() - i,
    {
        if matches_at(s, pat, i) {
            return true;
        }
        i = i + 1;
    }
    if matches_at(s, pat, i) {
        return true;
    }
    assert forall|j: int| !#[trigger] occurs_at(s@, pat@, j) by {
        if j > i {
            assert(!(j + pat@.len() <= s@.len()));
        }
    }
    false
}

/// Replace every occurrence of the non-empty `pat` in `s` by `rep`.
pub fn replace_all(s: &[char], pat: &[char], rep: &[char]) -> (r: Vec<char>)
    requires
        pat@.len() > 0,
    ensures
        r@ == replaced(s@, pat@, rep@),
{
    let mut out: Vec<char> = Vec::new();
    let mut i: usize = 0;
    assert(s@.skip(0) =~= s@);
    while i < s.len()
        invariant
            i <= s@.len(),
            pat@.len() > 0,
            out@ + replaced(s@.skip(i as int), pat@, rep@) == replaced(s@, pat@, rep@),
        decreases s@.len() - i,
    {
        let ghost t = s@.skip(i as int);
        if matches_at(s, pat, i) {
            proof {
                assert(t.take(pat@.len() as int) =~= s@.subrange(i as int, i + pat@.len()));
                assert(t.skip(pat@.len() as int) =~= s@.skip(i + pat@.len()));
                assert(out@ + rep@ + replaced(t.skip(pat@.len() as int), pat@, rep@) =~= out@ + (
                rep@ + replaced(t.skip(pat@.len() as int), pat@, rep@)));
            }
            push_all(&mut out, rep);
            i = i + pat.len();
        } else {
            proof {
                assert(t.skip(1) =~= s@.skip(i + 1));
                if t.len() >= pat@.len() {
                    assert(t.take(pat@.len() as int) =~= s@.subrange(i as int, i + pat@.len()));
                } else {
                    assert(t =~= seq![t[0]] + t.skip(1));
                }
                assert(out@.push(s@[i as int]) + replaced(t.skip(1), pat@, rep@) =~= out@ + (seq![t[0]]
                    + replaced(t.skip(1), pat@, rep@)));
            }
            out.push(s[i]);
            i = i + 1;
        }
    }
    proof {
        assert(out@ + replaced(s@.skip(i as int), pat@, rep@) =~= out@);
    }
    out
}

/// The `std` classification of `c` as alphanumeric: `char::is_alphanumeric`,
/// the Unicode `Alphabetic` property or a numeric general category.
pub uninterp spec fn is_alphanumeric_char(c: char) -> bool;

/// Calls `char::is_alphanumeric`. Claims that its answer is the fixed
/// classification `is_alphanumeric_char` of the character, and that among
/// ASCII characters exactly the letters and digits are alphanumeric.
#[verifier::external_body]
fn char_is_alphanumeric(c: char) -> (b: bool)
    ensures
        b == is_alphanumeric_char(c),
        (c as u32) < 128 ==> (b <==> ('a' <= c <= 'z' || 'A' <= c <= 'Z' || '0' <= c <= '9')),
{
    c.is_alphanumeric()
}

/// A character that a window name keeps in a file name.
pub open spec fn name_char_kept(c: char) -> bool {
    is_alphanumeric_char(c) || c == '-' || c == '_'
}

/// The characters of `s` that a file name keeps, in order.
pub open spec fn kept_chars(s: Seq<char>) -> Seq<char>
    decreases s.len(),
{
    if s.len() == 0 {
        seq![]
    } else if name_char_kept(s.last()) {
        kept_chars(s.drop_last()).push(s.last())
    } else {
        kept_chars(s.drop_last())
    }
}

/// The first `n` elements of `s`, or all of it when it is shorter.
pub open spec fn at_most(s: Seq<char>, n: nat) -> Seq<char> {
    if s.len() <= n {
        s
    } else {
        s.take(n as int)
    }
}

/// The text `%w` becomes for the window name `name`: its kept characters,
/// at most 50 of them.
pub open spec fn window_token(name: Seq<char>) -> Seq<char> {
    at_most(kept_chars(name), 50)
}

/// An ASCII character that a window name keeps: a letter, a digit, `-` or
/// `_`.
pub open spec fn ascii_name_char(c: char) -> bool {
    'a' <= c <= 'z' || 'A' <= c <= 'Z' || '0' <= c <= '9' || c == '-' || c == '_'
}

/// The characters of `s` that `ascii_name_char` keeps, in order.
pub open spec fn ascii_kept(s: Seq<char>) -> Seq<char>
    decreases s.len(),
{
    if s.len() == 0 {
        seq![]
    } else if ascii_name_char(s.last()) {
        ascii_kept(s.drop_last()).push(s.last())
    } else {
        ascii_kept(s.drop_last())
    }
}

proof fn lemma_kept_ascii(s: Seq<char>)
    requires
        forall|j: int| 0 <= j < s.len() ==> (name_char_kept(#[trigger] s[j]) <==> ascii_name_char(s[j])),
    ensures
        kept_chars(s) == ascii_kept(s),
    decreases s.len(),
{
    if s.len() > 0 {
        assert(s.last() == s[s.len() - 1]);
        assert forall|j: int| 0 <= j < s.drop_last().len() implies (name_char_kept(
            #[trigger] s.drop_last()[j],
        ) <==> ascii_name_char(s.drop_last()[j])) by {
            assert(s.drop_last()[j] == s[j]);
        }
        lemma_kept_ascii(s.drop_last());
    }
}

/// The window name's text for `%w`.
pub fn window_token_chars(name: &[char]) -> (r: Vec<char>)
    ensures
        r@ == window_token(name@),
        is_ascii_text(name@) ==> window_token(name@) == at_most(ascii_kept(name@), 50),
{
    let mut out: Vec<char> = Vec::new();
    let mut i: usize = 0;
    while i < name.len()
        invariant
            i <= name@.len(),
            out@ == window_token(name@.take(i as int)),
            forall|j: int|
                0 <= j < i && (name@[j] as u32) < 128 ==> (name_char_kept(#[trigger] name@[j])
                    <==> ascii_name_char(name@[j])),
        decreases name@.len() - i,
    {
        let c = name[i];
        let ghost prev = kept_chars(name@.take(i as int));
        proof {
            assert(name@.take(i + 1).drop_last() =~= name@.take(i as int));
        }
        let keep = char_is_alphanumeric(c) || c == '-' || c == '_';
        if out.len() < 50 && keep {
            out.push(c);
        }
        proof {
            let next = kept_chars(name@.take(i + 1));
            if prev.len() >= 50 {
                assert(next.take(50) =~= prev.take(50));
            }
        }
        i = i + 1;
    }
    proof {
        assert(name@.take(name@.len() as int) =~= name@);
        if is_ascii_text(name@) {
            assert forall|j: int| 0 <= j < name@.len() implies (name_char_kept(#[trigger] name@[j])
                <==> ascii_name_char(name@[j])) by {
                assert((name@[j] as u32) < 128);
            }
            lemma_kept_ascii(name@);
        }
    }
    out
}

/// One counter token: when `token` occurs in `pattern`, every occurrence
/// becomes the counter value padded to four digits and the counter advances;
/// otherwise nothing changes.
pub open spec fn counter_token(pattern: Seq<char>, token: Seq<char>, counter: u32) -> (Seq<char>, u32) {
    if occurs(pattern, token) {
        (replaced(pattern, token, zero_padded(counter as nat, 4)), wrapping_next(counter))
    } else {
        (pattern, counter)
    }
}

/// The `%N` token.
pub open spec fn global_token() -> Seq<char> {
    seq!['%', 'N']
}

/// The `%n` token.
pub open spec fn daily_token() -> Seq<char> {
    seq!['%', 'n']
}

/// The `%w` token.
pub open spec fn window_name_token() -> Seq<char> {
    seq!['%', 'w']
}

/// The pattern after the custom tokens, and the counter after them: `%N`,
/// then `%n`, each taking a counter value, then `%w` replaced by the window
/// name's kept characters (`window` when there is no name).
pub open spec fn custom_tokens(pattern: Seq<char>, window: Option<Seq<char>>, counter: u32) -> (Seq<char>, u32) {
    let (a, c1) = counter_token(pattern, global_token(), counter);
    let (b, c2) = counter_token(a, daily_token(), c1);
    let name = match window {
        Some(n) => n,
        None => "window"@,
    };
    if occurs(b, window_name_token()) {
        (replaced(b, window_name_token(), window_token(name)), c2)
    } else {
        (b, c2)
    }
}

/// `a` immediately followed by `b` somewhere in `x`.
pub open spec fn pair_in(x: Seq<char>, a: char, b: char) -> bool
    decreases x.len(),
{
    if x.len() < 2 {
        false
    } else {
        (x[0] == a && x[1] == b) || pair_in(x.skip(1), a, b)
    }
}

proof fn lemma_pair_occurs(x: Seq<char>, a: char, b: char)
    ensures
        occurs(x, seq![a, b]) == pair_in(x, a, b),
    decreases x.len(),
{
    let t = seq![a, b];
    if x.len() >= 2 {
        lemma_pair_occurs(x.skip(1), a, b);
        if x[0] == a && x[1] == b {
            assert(x.subrange(0, 2) =~= t);
            assert(occurs_at(x, t, 0));
        } else if pair_in(x.skip(1), a, b) {
            let j = choose|j: int| #[trigger] occurs_at(x.skip(1), t, j);
            assert(x.subrange(j + 1, j + 3) =~= x.skip(1).subrange(j, j + 2));
            assert(occurs_at(x, t, j + 1));
        } else {
            assert forall|i: int| !#[trigger] occurs_at(x, t, i) by {
                if occurs_at(x, t, i) {
                    if i == 0 {
                        assert(x.subrange(0, 2)[0] == x[0] && x.subrange(0, 2)[1] == x[1]);
                    } else {
                        assert(x.skip(1).subrange(i - 1, i + 1) =~= x.subrange(i, i + 2));
                        assert(occurs_at(x.skip(1), t, i - 1));
                    }
                }
            }
        }
    } else {
        assert forall|i: int| !#[trigger] occurs_at(x, t, i) by {}
    }
}

proof fn lemma_pair_after_digits(d: Seq<char>, y: Seq<char>, a: char, b: char)
    requires
        all_digits(d),
        !is_ascii_digit(a),
    ensures
        pair_in(d + y, a, b) == pair_in(y, a, b),
    decreases d.len(),
{
    if d.len() > 0 {
        assert(is_ascii_digit(d[0]));
        assert((d + y).skip(1) =~= d.skip(1) + y);
        lemma_pair_after_digits(d.skip(1), y, a, b);
    } else {
        assert(d + y =~= y);
    }
}

/// Replacing `%N` by digits neither makes nor breaks a `%n`.
proof fn lemma_daily_token_kept(s: Seq<char>, d: Seq<char>)
    requires
        d.len() > 0,
        all_digits(d),
    ensures
        pair_in(replaced(s, global_token(), d), '%', 'n') == pair_in(s, '%', 'n'),
    decreases s.len(),
{
    let g = global_token();
    if s.len() >= 2 {
        if s.take(2) == g {
            assert(s[1] == s.take(2)[1]);
            assert(s[1] == 'N');
            lemma_daily_token_kept(s.skip(2), d);
            lemma_pair_after_digits(d, replaced(s.skip(2), g, d), '%', 'n');
            assert(replaced(s, g, d) == d + replaced(s.skip(2), g, d));
            assert(s.skip(1).skip(1) =~= s.skip(2));
            assert(s.skip(1)[0] == 'N');
            assert(pair_in(s.skip(1), '%', 'n') == pair_in(s.skip(2), '%', 'n'));
        } else {
            let r1 = replaced(s.skip(1), g, d);
            lemma_daily_token_kept(s.skip(1), d);
            assert(replaced(s, g, d) == seq![s[0]] + r1);
            assert((seq![s[0]] + r1).skip(1) =~= r1);
            assert(r1.len() > 0);
            if s.skip(1).len() >= 2 && s.skip(1).take(2) == g {
                assert(s[1] == s.skip(1).take(2)[0]);
                assert(r1[0] == d[0]);
                assert(is_ascii_digit(d[0]));
            } else if s.skip(1).len() >= 2 {
                assert(r1[0] == s[1]);
            } else {
                assert(r1 == s.skip(1));
            }
        }
    }
}

/// A counter advanced `n` times.
pub open spec fn advanced(counter: u32, n: nat) -> u32
    decreases n,
{
    if n == 0 {
        counter
    } else {
        wrapping_next(advanced(counter, (n - 1) as nat))
    }
}

/// How many of the counter tokens `%N` and `%n` occur in `pattern`.
pub open spec fn counter_token_count(pattern: Seq<char>) -> nat {
    (if occurs(pattern, global_token()) { 1nat } else { 0nat }) + (if occurs(pattern, daily_token()) {
        1nat
    } else {
        0nat
    })
}

/// Each counter token that a pattern holds takes one counter value, however
/// often it occurs; nothing else in the pattern moves the counter.
pub proof fn lemma_counter_advances_per_token(pattern: Seq<char>, window: Option<Seq<char>>, counter: u32)
    ensures
        custom_tokens(pattern, window, counter).1 == advanced(counter, counter_token_count(pattern)),
{
    reveal_with_fuel(advanced, 3);
    let (a, c1) = counter_token(pattern, global_token(), counter);
    lemma_zero_padded_digits(counter as nat, 4);
    lemma_pair_occurs(pattern, '%', 'n');
    lemma_pair_occurs(a, '%', 'n');
    if occurs(pattern, global_token()) {
        lemma_daily_token_kept(pattern, zero_padded(counter as nat, 4));
    }
    assert(occurs(a, daily_token()) == occurs(pattern, daily_token()));
}

fn two_chars(a: char, b: char) -> (r: Vec<char>)
    ensures
        r@ == seq![a, b],
{
    let mut r: Vec<char> = Vec::new();
    r.push(a);
    r.push(b);
    r
}

fn apply_counter_token(pattern: Vec<char>, token: &[char], counter: &mut NameCounter) -> (r: Vec<char>)
    requires
        token@.len() > 0,
    ensures
        (r@, final(counter).next) == counter_token(pattern@, token@, old(counter).next),
{
    if contains_chars(pattern.as_slice(), token) {
        let v = counter.take();
        let digits = zero_padded_chars(v as u64, 4);
        replace_all(pattern.as_slice(), token, digits.as_slice())
    } else {
        pattern
    }
}

/// The window name of `config`.
pub open spec fn window_of(config: NamingConfig) -> Option<Seq<char>> {
    match config.window_name {
        Some(n) => Some(n@),
        None => None,
    }
}

/// Process the custom tokens `%N`, `%n` and `%w` of `pattern`, taking counter
/// values from `counter`.
pub fn process_custom_tokens(pattern: &str, config: &NamingConfig, counter: &mut NameCounter) -> (r: String)
    ensures
        (r@, final(counter).next) == custom_tokens(pattern@, window_of(*config), old(counter).next),
        window_of(*config) matches Some(n) ==> (is_ascii_text(n) ==> window_token(n) == at_most(
            ascii_kept(n),
            50,
        )),
{
    let p = chars_of(pattern);
    let global = two_chars('%', 'N');
    let after_global = apply_counter_token(p, global.as_slice(), counter);
    let daily = two_chars('%', 'n');
    let after_daily = apply_counter_token(after_global, daily.as_slice(), counter);
    let w = two_chars('%', 'w');
    let name = match &config.window_name {
        Some(n) => chars_of(n.as_str()),
        None => chars_of("window"),
    };
    let token = window_token_chars(name.as_slice());
    let result = if contains_chars(after_daily.as_slice(), w.as_slice()) {
        replace_all(after_daily.as_slice(), w.as_slice(), token.as_slice())
    } else {
        after_daily
    };
    string_of(result.as_slice())
}

/// `stem.ext`.
pub open spec fn with_extension(stem: Seq<char>, ext: Seq<char>) -> Seq<char> {
    stem + seq!['.'] + ext
}

/// A file name from its stem and the format's extension.
pub fn file_name_with_extension(stem: &str, format: &str) -> (r: String)
    ensures
        r@ == with_extension(stem@, format@),
{
    let mut out = chars_of(stem);
    out.push('.');
    push_all(&mut out, chars_of(format).as_slice());
    string_of(out.as_slice())
}

/// Decimal text of a signed integer, with a leading `-` when negative.
pub open spec fn signed_decimal(v: int) -> Seq<char> {
    if v < 0 {
        seq!['-'] + decimal((-v) as nat)
    } else {
        decimal(v as nat)
    }
}

/// `stem-n.ext`: the name tried when `stem.ext` is taken.
pub open spec fn numbered_name(stem: Seq<char>, n: int, ext: Seq<char>) -> Seq<char> {
    with_extension(stem + seq!['-'] + signed_decimal(n), ext)
}

/// The file name `stem-n.format`, for a name that is already taken.
pub fn collision_name(stem: &str, n: i64, format: &str) -> (r: String)
    ensures
        r@ == numbered_name(stem@, n as int, format@),
{
    let mut out = chars_of(stem);
    out.push('-');
    if n < 0 {
        out.push('-');
        let m: u64 = if n == i64::MIN {
            9223372036854775808u64
        } else {
            (-n) as u64
        };
        push_all(&mut out, decimal_chars(m).as_slice());
    } else {
        push_all(&mut out, decimal_chars(n as u64).as_slice());
    }
    out.push('.');
    push_all(&mut out, chars_of(format).as_slice());
    let r = string_of(out.as_slice());
    assert(r@ =~= numbered_name(stem@, n as int, format@));
    r
}

/// The next move in the search for a free file name.
#[derive(Debug, Clone, Copy, PartialEq, Eq, Structural)]
pub enum CollisionStep {
    /// The name just tried is free: use it.
    Use,
    /// Try the numbered name `stem-n.ext` next.
    TryNumber(u32),
    /// The numbers up to 999 are all taken: use `stem-<milliseconds>.ext`.
    UseTimestamp,
}

/// After trying name number `tried` (0 for the name itself) and learning
/// whether it `exists`: a free name is used, a taken one leads to the next
/// number, and after number 999 to the timestamp.
pub open spec fn collision_next(tried: u32, exists: bool) -> CollisionStep {
    if !exists {
        CollisionStep::Use
    } else if tried < 999 {
        CollisionStep::TryNumber((tried + 1) as u32)
    } else {
        CollisionStep::UseTimestamp
    }
}

/// Decide the next move of the search for a free file name.
pub fn collision_step(tried: u32, exists: bool) -> (r: CollisionStep)
    ensures
        r == collision_next(tried, exists),
{
    if !exists {
        CollisionStep::Use
    } else if tried < 999 {
        CollisionStep::TryNumber(tried + 1)
    } else {
        CollisionStep::UseTimestamp
    }
}

/// A moment as the clock gives it: seconds and nanoseconds since the Unix
/// epoch, and the local offset from UTC in seconds.
#[derive(Debug, Clone, Copy, PartialEq, Eq, Structural)]
pub struct LocalTime {
    pub secs: i64,
    pub nanos: u32,
    pub offset_secs: i32,
}

/// What `chrono` writes for the strftime pattern at the moment `secs`,
/// `nanos` in the time zone `offset_secs` east of UTC; `None` when the
/// offset or moment is out of range or the pattern holds an invalid item.
pub uninterp spec fn strftime_text(pattern: Seq<char>, secs: i64, nanos: u32, offset_secs: i32) -> Option<Seq<char>>;

/// Calls `chrono::FixedOffset::east_opt`, `TimeZone::timestamp_opt` and
/// `DateTime::format`, writing the result into a string. Claims only that
/// the outcome is `strftime_text` of the arguments.
#[verifier::external_body]
fn strftime(pattern: &str, time: &LocalTime) -> (r: Option<String>)
    ensures
        match r {
            Some(t) => strftime_text(pattern@, time.secs, time.nanos, time.offset_secs) == Some(t@),
            None => strftime_text(pattern@, time.secs, time.nanos, time.offset_secs) is None,
        },
{
    let zone = chrono::FixedOffset::east_opt(time.offset_secs)?;
    let moment = chrono::TimeZone::timestamp_opt(&zone, time.secs, time.nanos).single()?;
    let mut text = String::new();
    match write!(text, "{}", moment.format(pattern)) {
        Ok(()) => Some(text),
        Err(_) => None,
    }
}

/// The path of a screenshot taken at `time`: the pattern's custom tokens,
/// then its strftime tokens, then the extension, under `save_dir`. `None`
/// when the pattern cannot be formatted.
pub fn generate_file_path(
    config: &NamingConfig,
    format: &str,
    save_dir: &str,
    time: &LocalTime,
    counter: &mut NameCounter,
) -> (r: Option<String>)
    ensures
        ({
            let (p, c) = custom_tokens(config.pattern@, window_of(*config), old(counter).next);
            &&& final(counter).next == c
            &&& match strftime_text(p, time.secs, time.nanos, time.offset_secs) {
                Some(t) => r matches Some(s) && s@ == joined(save_dir@, with_extension(t, format@)),
                None => r is None,
            }
        }),
        window_of(*config) matches Some(n) ==> (is_ascii_text(n) ==> window_token(n) == at_most(
            ascii_kept(n),
            50,
        )),
{
    let pattern = process_custom_tokens(config.pattern.as_str(), config, counter);
    match strftime(pattern.as_str(), time) {
        Some(stem) => {
            let name = file_name_with_extension(stem.as_str(), format);
            Some(join_path(save_dir, name.as_str()))
        },
        None => None,
    }
}

} // verus!
