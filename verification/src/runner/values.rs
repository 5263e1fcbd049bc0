//! Arithmetic on decimal values and operations on texts that the
//! interpreter's built-in functions use.
use vstd::prelude::*;
use crate::text::{is_ws, is_ws_char, push_str, string_push, to_owned_string, trim_end_seq, trim_start_seq};

verus! {

/// Ten to the power `s`.
pub open spec fn pow10(s: nat) -> nat
    decreases s,
{
    if s == 0 { 1 } else { 10 * pow10((s - 1) as nat) }
}

/// Powers of ten are positive and grow with the exponent.
pub proof fn lemma_pow10_grows(a: nat, b: nat)
    requires
        a <= b,
    ensures
        1 <= pow10(a) <= pow10(b),
    decreases b,
{
    if a < b {
        lemma_pow10_grows(a, (b - 1) as nat);
    } else if b > 0 {
        lemma_pow10_grows(0, (b - 1) as nat);
    }
}

/// The value of ten to the power 37.
proof fn lemma_pow10_value_37()
    ensures
        pow10(37) == 10000000000000000000000000000000000000nat,
{
    reveal_with_fuel(pow10, 38);
}

/// The largest integer not above `m / 10^s`.
pub open spec fn floor_dec(m: int, s: nat) -> int {
    m / (pow10(s) as int)
}

/// The smallest integer not below `m / 10^s`.
pub open spec fn ceil_dec(m: int, s: nat) -> int {
    -((-m) / (pow10(s) as int))
}

/// `m / 10^s` rounded to the nearest integer, halves away from zero.
pub open spec fn round_dec(m: int, s: nat) -> int {
    let p = pow10(s) as int;
    if m >= 0 { (2 * m + p) / (2 * p) } else { -((-2 * m + p) / (2 * p)) }
}

/// Ten to the power `s`, for `s` up to 37.
fn pow10_i128(s: u32) -> (r: i128)
    requires
        s <= 37,
    ensures
        r == pow10(s as nat),
        1 <= r <= 10000000000000000000000000000000000000,
{
    let mut r: i128 = 1;
    let mut k: u32 = 0;
    while k < s
        invariant
            k <= s <= 37,
            r == pow10(k as nat),
        decreases s - k,
    {
        proof {
            lemma_pow10_grows((k + 1) as nat, 37);
            lemma_pow10_value_37();
        }
        r = r * 10;
        k = k + 1;
    }
    proof {
        lemma_pow10_grows(s as nat, 37);
        lemma_pow10_value_37();
    }
    r
}

/// Facts about a decimal whose scale is beyond what `i128` holds.
proof fn lemma_small_fraction(m: int, s: nat)
    requires
        s > 37,
        -9223372036854775808 <= m <= 9223372036854775807,
    ensures
        floor_dec(m, s) == (if m < 0 { -1int } else { 0int }),
        ceil_dec(m, s) == (if m > 0 { 1int } else { 0int }),
        round_dec(m, s) == 0,
{
    lemma_pow10_grows(38, s);
    lemma_pow10_value_37();
    assert(pow10(38) == 10 * pow10(37));
    let p = pow10(s) as int;
    assert(p > 2 * 9223372036854775808 + 2);
    if m >= 0 {
        assert(0 <= 2 * m + p < 2 * p);
        assert((2 * m + p) / (2 * p) == 0) by (nonlinear_arith)
            requires 0 <= 2 * m + p < 2 * p, p > 0;
    } else {
        assert(0 <= -2 * m + p < 2 * p);
        assert((-2 * m + p) / (2 * p) == 0) by (nonlinear_arith)
            requires 0 <= -2 * m + p < 2 * p, p > 0;
    }
    if m > 0 {
        assert((-m) / p == -1) by (nonlinear_arith)
            requires 0 < m < p;
    } else if m < 0 {
        assert(m / p == -1) by (nonlinear_arith)
            requires -p < m < 0;
    }
    if m >= 0 {
        assert(m / p == 0) by (nonlinear_arith)
            requires 0 <= m < p;
    }
    if m <= 0 {
        assert((-m) / p == 0) by (nonlinear_arith)
            requires 0 <= -m < p;
    }
}

/// The largest integer not above `m / 10^s` (`f64::floor`).
pub fn floor_decimal(m: i64, s: u32) -> (r: i64)
    ensures
        r == floor_dec(m as int, s as nat),
{
    if s > 37 {
        proof { lemma_small_fraction(m as int, s as nat); }
        if m < 0 { -1 } else { 0 }
    } else {
        let p = pow10_i128(s);
        proof { lemma_pow10_grows(0, s as nat); }
        let mm = m as i128;
        let q = if mm >= 0 { mm / p } else { -((-mm + p - 1) / p) };
        proof {
            let pi = p as int;
            let mi = m as int;
            if mi >= 0 {
                assert(q == mi / pi);
            } else {
                assert(q == -((-mi + pi - 1) / pi));
                assert(-((-mi + pi - 1) / pi) == mi / pi) by (nonlinear_arith)
                    requires pi >= 1, mi < 0;
            }
        }
        assert(-9223372036854775808 <= q <= 9223372036854775807) by (nonlinear_arith)
            requires
                p >= 1,
                q == floor_dec(m as int, s as nat),
                p == pow10(s as nat),
                -9223372036854775808 <= m <= 9223372036854775807;
        q as i64
    }
}

/// The smallest integer not below `m / 10^s` (`f64::ceil`).
pub fn ceil_decimal(m: i64, s: u32) -> (r: i64)
    ensures
        r == ceil_dec(m as int, s as nat),
{
    if s > 37 {
        proof { lemma_small_fraction(m as int, s as nat); }
        if m > 0 { 1 } else { 0 }
    } else {
        let p = pow10_i128(s);
        proof { lemma_pow10_grows(0, s as nat); }
        let mm = m as i128;
        let q = if mm <= 0 { -((-mm) / p) } else { (mm + p - 1) / p };
        proof {
            let pi = p as int;
            let mi = m as int;
            if mi <= 0 {
                assert(q == -((-mi) / pi));
            } else {
                assert(q == (mi + pi - 1) / pi);
                assert((mi + pi - 1) / pi == -((-mi) / pi)) by (nonlinear_arith)
                    requires pi >= 1, mi > 0;
            }
        }
        proof {
            let pi = p as int;
            let mi = m as int;
            if mi <= 0 {
                assert(0 <= (-mi) / pi <= -mi) by (nonlinear_arith)
                    requires pi >= 1, mi <= 0;
            } else {
                assert(0 <= (mi + pi - 1) / pi <= mi) by (nonlinear_arith)
                    requires pi >= 1, mi > 0;
            }
        }
        q as i64
    }
}

/// `m / 10^s` rounded to the nearest integer, halves away from zero
/// (`f64::round`).
pub fn round_decimal(m: i64, s: u32) -> (r: i64)
    ensures
        r == round_dec(m as int, s as nat),
{
    if s > 37 {
        proof { lemma_small_fraction(m as int, s as nat); }
        0
    } else {
        let p = pow10_i128(s);
        proof { lemma_pow10_grows(0, s as nat); }
        let mm = m as i128;
        let q = if mm >= 0 { (2 * mm + p) / (2 * p) } else { -((p - 2 * mm) / (2 * p)) };
        proof {
            let pi = p as int;
            let mi = m as int;
            if mi >= 0 {
                assert(q == (2 * mi + pi) / (2 * pi));
                assert(0 <= (2 * mi + pi) / (2 * pi) <= mi) by (nonlinear_arith)
                    requires pi >= 1, mi >= 0;
            } else {
                assert(q == -((pi - 2 * mi) / (2 * pi)));
                assert(0 <= (pi - 2 * mi) / (2 * pi) <= -mi) by (nonlinear_arith)
                    requires pi >= 1, mi < 0;
            }
        }
        assert(-9223372036854775808 <= q <= 9223372036854775807);
        q as i64
    }
}

/// Whether `r` is the integer square root of `n`.
pub open spec fn is_isqrt(n: int, r: int) -> bool {
    0 <= r && r * r <= n < (r + 1) * (r + 1)
}

/// The integer square root of `n` (`isqrt`).
pub fn isqrt_u64(n: u64) -> (r: u64)
    ensures
        is_isqrt(n as int, r as int),
{
    let mut lo: u64 = 0;
    let mut hi: u64 = 4294967296;
    assert((hi as int) * (hi as int) > (n as int)) by (nonlinear_arith)
        requires hi == 4294967296, n < 18446744073709551616;
    while hi - lo > 1
        invariant
            lo < hi <= 4294967296,
            (lo as int) * (lo as int) <= (n as int),
            (n as int) < (hi as int) * (hi as int),
        decreases hi - lo,
    {
        let mid = lo + (hi - lo) / 2;
        assert((mid as int) * (mid as int) <= 4294967296 * 4294967296) by (nonlinear_arith)
            requires mid <= 4294967296;
        if (mid as u128) * (mid as u128) <= n as u128 {
            lo = mid;
        } else {
            hi = mid;
        }
    }
    assert(hi == lo + 1);
    lo
}

/// The value of a decimal digit character.
pub open spec fn digit_value(c: char) -> int {
    (c as int) - ('0' as int)
}

/// The value of a string of decimal digits.
pub open spec fn digits_value(s: Seq<char>) -> int
    decreases s.len(),
{
    if s.len() == 0 { 0 } else { 10 * digits_value(s.drop_last()) + digit_value(s.last()) }
}

/// Whether every character is a decimal digit.
pub open spec fn all_digits(s: Seq<char>) -> bool {
    forall|i: int| 0 <= i < s.len() ==> '0' <= #[trigger] s[i] && s[i] <= '9'
}

/// The number a text reads as (`str::parse::<i64>`): an optional sign and at
/// least one decimal digit, whose value fits; `None` otherwise.
pub open spec fn parse_i64_spec(s: Seq<char>) -> Option<i64> {
    let neg = s.len() > 0 && s[0] == '-';
    let body = if s.len() > 0 && (s[0] == '-' || s[0] == '+') { s.drop_first() } else { s };
    let v = if neg { -digits_value(body) } else { digits_value(body) };
    if body.len() > 0 && all_digits(body) && -9223372036854775808 <= v <= 9223372036854775807 {
        Some(v as i64)
    } else {
        None
    }
}

/// Digit values are never negative.
proof fn lemma_digits_value_nonneg(s: Seq<char>)
    requires
        all_digits(s),
    ensures
        digits_value(s) >= 0,
    decreases s.len(),
{
    if s.len() > 0 {
        assert(all_digits(s.drop_last()));
        lemma_digits_value_nonneg(s.drop_last());
        assert('0' <= s[s.len() - 1]);
    }
}

/// The number a text reads as, if any (`str::parse::<i64>`).
#[verifier::loop_isolation(false)]
pub fn parse_i64(s: &str) -> (r: Option<i64>)
    ensures
        r == parse_i64_spec(s@),
{
    let n = s.unicode_len();
    let mut start: usize = 0;
    let mut neg = false;
    if n > 0 && (s.get_char(0) == '-' || s.get_char(0) == '+') {
        neg = s.get_char(0) == '-';
        start = 1;
    }
    let ghost body = if s@.len() > 0 && (s@[0] == '-' || s@[0] == '+') { s@.drop_first() } else { s@ };
    assert(body =~= s@.subrange(start as int, n as int));
    if start >= n {
        assert(body.len() == 0);
        return None;
    }
    let mut acc: i128 = 0;
    let mut i: usize = start;
    while i < n
        invariant
            start <= i <= n,
            n == s@.len(),
            body == s@.subrange(start as int, n as int),
            all_digits(s@.subrange(start as int, i as int)),
            acc == digits_value(s@.subrange(start as int, i as int)),
            0 <= acc <= 9223372036854775808,
        decreases n - i,
    {
        let c = s.get_char(i);
        if !('0' <= c && c <= '9') {
            proof {
                assert(body[i - start] == c);
                assert(!all_digits(body));
            }
            return None;
        }
        let d = (c as u32 - '0' as u32) as i128;
        let next = acc * 10 + d;
        proof {
            let t = s@.subrange(start as int, i + 1);
            assert(t.drop_last() =~= s@.subrange(start as int, i as int));
            assert(t.last() == c);
            assert(all_digits(t));
        }
        if next > 9223372036854775808 {
            proof {
                let t = s@.subrange(start as int, i + 1);
                assert(body.subrange(0, (i + 1 - start) as int) =~= t);
                if all_digits(body) {
                    lemma_digits_prefix_grows(body, (i + 1 - start) as int);
                    assert(digits_value(body) > 9223372036854775808);
                }
            }
            return None;
        }
        acc = next;
        i = i + 1;
    }
    assert(s@.subrange(start as int, n as int) == body);
    assert(acc == digits_value(body));
    assert(all_digits(body));
    if neg {
        Some((0 - acc) as i64)
    } else if acc > 9223372036854775807 {
        None
    } else {
        Some(acc as i64)
    }
}

/// Reading more digits never makes the value of a digit string smaller.
proof fn lemma_digits_prefix_grows(s: Seq<char>, k: int)
    requires
        all_digits(s),
        0 <= k <= s.len(),
    ensures
        digits_value(s) >= digits_value(s.subrange(0, k)),
    decreases s.len(),
{
    if k < s.len() {
        let t = s.drop_last();
        assert(all_digits(t));
        assert(t.subrange(0, k) =~= s.subrange(0, k));
        lemma_digits_prefix_grows(t, k);
        lemma_digits_value_nonneg(t);
        assert('0' <= s[s.len() - 1]);
    } else {
        assert(s.subrange(0, k) =~= s);
    }
}

/// The number of bytes a character takes in UTF-8.
pub open spec fn utf8_width(c: char) -> nat {
    if (c as int) < 0x80 { 1 } else if (c as int) < 0x800 { 2 } else if (c as int) < 0x10000 { 3 } else { 4 }
}

/// The number of bytes a text takes in UTF-8 (`str::len`).
pub open spec fn utf8_len(s: Seq<char>) -> nat
    decreases s.len(),
{
    if s.len() == 0 { 0 } else { utf8_len(s.drop_last()) + utf8_width(s.last()) }
}

/// The number of bytes a text takes in UTF-8 (`str::len`).
pub fn utf8_length(s: &str) -> (r: u128)
    ensures
        r == utf8_len(s@),
{
    let n = s.unicode_len();
    let mut total: u128 = 0;
    let mut i: usize = 0;
    while i < n
        invariant
            n == s@.len(),
            i <= n,
            total == utf8_len(s@.subrange(0, i as int)),
            total <= 4 * i,
        decreases n - i,
    {
        let c = s.get_char(i);
        let w: u128 = if (c as u32) < 0x80 { 1 } else if (c as u32) < 0x800 { 2 } else if (c as u32) < 0x10000 { 3 } else { 4 };
        proof {
            let t = s@.subrange(0, i + 1);
            assert(t.drop_last() =~= s@.subrange(0, i as int));
            assert(t.last() == c);
        }
        total = total + w;
        i = i + 1;
    }
    assert(s@.subrange(0, n as int) =~= s@);
    total
}

/// A text without white space at either end (`str::trim`).
pub fn trim_text(s: &str) -> (r: String)
    ensures
        r@ == trim_end_seq(trim_start_seq(s@)),
{
    let n = s.unicode_len();
    let mut a: usize = 0;
    assert(s@.subrange(0, n as int) =~= s@);
    while a < n && is_ws_char(s.get_char(a))
        invariant
            n == s@.len(),
            a <= n,
            trim_start_seq(s@) == trim_start_seq(s@.subrange(a as int, n as int)),
        decreases n - a,
    {
        assert(s@.subrange(a as int, n as int).drop_first() =~= s@.subrange(a + 1, n as int));
        a = a + 1;
    }
    let mut b: usize = n;
    proof {
        if a < n {
            assert(s@.subrange(a as int, n as int)[0] == s@[a as int]);
        } else {
            assert(s@.subrange(a as int, n as int) =~= Seq::<char>::empty());
        }
    }
    while b > a && is_ws_char(s.get_char(b - 1))
        invariant
            n == s@.len(),
            a <= b <= n,
            trim_start_seq(s@) == s@.subrange(a as int, n as int),
            trim_end_seq(trim_start_seq(s@)) == trim_end_seq(s@.subrange(a as int, b as int)),
        decreases b - a,
    {
        assert(s@.subrange(a as int, b as int).drop_last() =~= s@.subrange(a as int, b - 1));
        b = b - 1;
    }
    proof {
        if a < b {
            assert(s@.subrange(a as int, b as int).last() == s@[b - 1]);
        } else {
            assert(s@.subrange(a as int, b as int) =~= Seq::<char>::empty());
        }
    }
    to_owned_string(s.substring_char(a, b))
}

/// The text `str::to_lowercase` makes of a text.
pub uninterp spec fn lowercase(s: Seq<char>) -> Seq<char>;

/// The text `str::to_uppercase` makes of a text.
pub uninterp spec fn uppercase(s: Seq<char>) -> Seq<char>;

/// The text in lower case (`str::to_lowercase`). Trusted: the result is
/// `lowercase` of the text; the Unicode case mapping is the standard
/// library's.
#[verifier::external_body]
pub(crate) fn to_lowercase(s: &str) -> (r: String)
    ensures
        r@ == lowercase(s@),
{
    s.to_lowercase()
}

/// The text in upper case (`str::to_uppercase`). Trusted: the result is
/// `uppercase` of the text; the Unicode case mapping is the standard
/// library's.
#[verifier::external_body]
pub(crate) fn to_uppercase(s: &str) -> (r: String)
    ensures
        r@ == uppercase(s@),
{
    s.to_uppercase()
}

/// The text of one character (`char::to_string`).
pub fn char_to_string(c: char) -> (r: String)
    ensures
        r@ == seq![c],
{
    let mut s = String::new();
    string_push(&mut s, c);
    assert(s@ =~= seq![c]);
    s
}

/// The current time in milliseconds since the Unix epoch. Trusted; nothing
/// is claimed of the value, which the clock decides.
#[verifier::external_body]
pub(crate) fn now_millis() -> (r: u64) {
    match std::time::SystemTime::now().duration_since(std::time::UNIX_EPOCH) {
        Ok(d) => d.as_millis() as u64,
        Err(_) => 0,
    }
}

} // verus!
