//! Character-level helpers over `String` and `&str`, stated over their
//! `Seq<char>` views.
use vstd::prelude::*;

verus! {

/// Appends one character to a string (`String::push`).
/// Trusted: the resulting text is the old text followed by `c`.
#[verifier::external_body]
pub(crate) fn string_push(s: &mut String, c: char)
    ensures
        final(s)@ == old(s)@.push(c),
{
    s.push(c);
}

/// Whether two string slices hold the same characters.
pub fn str_eq(a: &str, b: &str) -> (r: bool)
    ensures
        r == (a@ == b@),
{
    let n = a.unicode_len();
    let m = b.unicode_len();
    if n != m {
        return false;
    }
    let mut i: usize = 0;
    while i < n
        invariant
            n == a@.len(),
            m == b@.len(),
            n == m,
            i <= n,
            forall|j: int| 0 <= j < i ==> a@[j] == b@[j],
        decreases n - i,
    {
        if a.get_char(i) != b.get_char(i) {
            return false;
        }
        i = i + 1;
    }
    assert(a@ =~= b@);
    true
}

/// A copy of a string slice as an owned `String`.
pub fn to_owned_string(s: &str) -> (r: String)
    ensures
        r@ == s@,
{
    String::from_str(s)
}

/// Appends a string slice to a string.
pub fn push_str(s: &mut String, t: &str)
    ensures
        final(s)@ == old(s)@ + t@,
{
    s.append(t);
}

/// The decimal digits of a natural number, most significant first.
pub open spec fn nat_digits(n: nat) -> Seq<char>
    decreases n,
{
    if n < 10 {
        seq![digit_char(n)]
    } else {
        nat_digits(n / 10).push(digit_char(n % 10))
    }
}

/// The ASCII character of a decimal digit.
pub open spec fn digit_char(d: nat) -> char {
    if d == 0 { '0' }
    else if d == 1 { '1' }
    else if d == 2 { '2' }
    else if d == 3 { '3' }
    else if d == 4 { '4' }
    else if d == 5 { '5' }
    else if d == 6 { '6' }
    else if d == 7 { '7' }
    else if d == 8 { '8' }
    else { '9' }
}

/// The decimal notation of an integer, with a leading `-` when negative
/// (the text `i64::to_string` gives).
pub open spec fn int_text(n: int) -> Seq<char> {
    if n < 0 {
        seq!['-'] + nat_digits((-n) as nat)
    } else {
        nat_digits(n as nat)
    }
}

fn digit_to_char(d: u64) -> (c: char)
    requires
        d < 10,
    ensures
        c == digit_char(d as nat),
{
    if d == 0 { '0' }
    else if d == 1 { '1' }
    else if d == 2 { '2' }
    else if d == 3 { '3' }
    else if d == 4 { '4' }
    else if d == 5 { '5' }
    else if d == 6 { '6' }
    else if d == 7 { '7' }
    else if d == 8 { '8' }
    else { '9' }
}

/// Appends the decimal digits of `n` to `s`.
pub fn push_u64_digits(s: &mut String, n: u64)
    ensures
        final(s)@ == old(s)@ + nat_digits(n as nat),
    decreases n,
{
    if n < 10 {
        string_push(s, digit_to_char(n));
    } else {
        push_u64_digits(s, n / 10);
        string_push(s, digit_to_char(n % 10));
        assert(final(s)@ =~= old(s)@ + nat_digits(n as nat)) by {
            assert(nat_digits(n as nat) == nat_digits((n / 10) as nat).push(digit_char((n % 10) as nat)));
        }
    }
}

/// The decimal text of an `i64` (`n.to_string()`).
pub fn i64_to_string(n: i64) -> (r: String)
    ensures
        r@ == int_text(n as int),
{
    let mut s = String::new();
    if n < 0 {
        string_push(&mut s, '-');
        let mag: u64 = ((0i64 - (n + 1)) as u64) + 1;
        assert(mag == -(n as int));
        push_u64_digits(&mut s, mag);
    } else {
        push_u64_digits(&mut s, n as u64);
    }
    assert(s@ =~= int_text(n as int));
    s
}

/// Appends the decimal text of a `usize`.
pub fn push_usize(s: &mut String, n: usize)
    ensures
        final(s)@ == old(s)@ + nat_digits(n as nat),
{
    push_u64_digits(s, n as u64);
}

} // verus!

verus! {

/// Whether `c` is white space (`char::is_whitespace`: the Unicode
/// White_Space characters).
pub open spec fn is_ws(c: char) -> bool {
    ||| ('\u{9}' <= c && c <= '\u{d}')
    ||| c == ' '
    ||| c == '\u{85}'
    ||| c == '\u{a0}'
    ||| c == '\u{1680}'
    ||| ('\u{2000}' <= c && c <= '\u{200a}')
    ||| c == '\u{2028}'
    ||| c == '\u{2029}'
    ||| c == '\u{202f}'
    ||| c == '\u{205f}'
    ||| c == '\u{3000}'
}

/// Whether `c` is white space.
pub fn is_ws_char(c: char) -> (b: bool)
    ensures
        b == is_ws(c),
{
    ('\u{9}' <= c && c <= '\u{d}') || c == ' ' || c == '\u{85}' || c == '\u{a0}' || c == '\u{1680}'
        || ('\u{2000}' <= c && c <= '\u{200a}') || c == '\u{2028}' || c == '\u{2029}'
        || c == '\u{202f}' || c == '\u{205f}' || c == '\u{3000}'
}

/// A text without its leading white space (`trim_start`).
pub open spec fn trim_start_seq(s: Seq<char>) -> Seq<char>
    decreases s.len(),
{
    if s.len() > 0 && is_ws(s[0]) {
        trim_start_seq(s.drop_first())
    } else {
        s
    }
}

/// A text without its trailing white space (`trim_end`).
pub open spec fn trim_end_seq(s: Seq<char>) -> Seq<char>
    decreases s.len(),
{
    if s.len() > 0 && is_ws(s.last()) {
        trim_end_seq(s.drop_last())
    } else {
        s
    }
}

/// The position of the first character that is not white space.
fn first_non_ws(s: &str) -> (i: usize)
    ensures
        i <= s@.len(),
        trim_start_seq(s@) == s@.subrange(i as int, s@.len() as int),
{
    let n = s.unicode_len();
    let mut i: usize = 0;
    assert(s@.subrange(0, n as int) =~= s@);
    while i < n && is_ws_char(s.get_char(i))
        invariant
            n == s@.len(),
            i <= n,
            trim_start_seq(s@) == trim_start_seq(s@.subrange(i as int, n as int)),
        decreases n - i,
    {
        assert(s@.subrange(i as int, n as int).drop_first() =~= s@.subrange(i + 1, n as int));
        i = i + 1;
    }
    assert(s@.subrange(0, n as int) =~= s@);
    i
}

/// Whether `prefix` begins the text once its leading white space is
/// skipped (`s.trim_start().starts_with(prefix)`).
pub fn starts_with_after_ws(s: &str, prefix: &str) -> (b: bool)
    ensures
        b == prefix@.is_prefix_of(trim_start_seq(s@)),
{
    let start = first_non_ws(s);
    let n = s.unicode_len();
    let m = prefix.unicode_len();
    if n - start < m {
        return false;
    }
    let mut k: usize = 0;
    while k < m
        invariant
            n == s@.len(),
            m == prefix@.len(),
            start + m <= n,
            k <= m,
            trim_start_seq(s@) == s@.subrange(start as int, n as int),
            forall|j: int| 0 <= j < k ==> prefix@[j] == s@[start + j],
        decreases m - k,
    {
        if prefix.get_char(k) != s.get_char(start + k) {
            assert(trim_start_seq(s@)[k as int] == s@[start + k]);
            return false;
        }
        k = k + 1;
    }
    assert(prefix@ =~= trim_start_seq(s@).subrange(0, m as int));
    true
}

/// Whether the text, once its trailing white space is dropped, ends with
/// `c` (`s.trim_end().ends_with(c)`).
pub fn ends_with_after_ws(s: &str, c: char) -> (b: bool)
    ensures
        b == (trim_end_seq(s@).len() > 0 && trim_end_seq(s@).last() == c),
{
    let n = s.unicode_len();
    let mut i: usize = n;
    assert(s@.subrange(0, n as int) =~= s@);
    while i > 0 && is_ws_char(s.get_char(i - 1))
        invariant
            n == s@.len(),
            i <= n,
            trim_end_seq(s@) == trim_end_seq(s@.subrange(0, i as int)),
        decreases i,
    {
        assert(s@.subrange(0, i as int).drop_last() =~= s@.subrange(0, i - 1));
        i = i - 1;
    }
    assert(s@.subrange(0, n as int) =~= s@);
    if i == 0 {
        assert(s@.subrange(0, 0) =~= Seq::<char>::empty());
        false
    } else {
        s.get_char(i - 1) == c
    }
}

/// Whether the text ends with `c` (`s.ends_with(c)`).
pub fn ends_with_char(s: &str, c: char) -> (b: bool)
    ensures
        b == (s@.len() > 0 && s@.last() == c),
{
    let n = s.unicode_len();
    n > 0 && s.get_char(n - 1) == c
}

/// Whether the text starts with `c` (`s.starts_with(c)`).
pub fn starts_with_char(s: &str, c: char) -> (b: bool)
    ensures
        b == (s@.len() > 0 && s@[0] == c),
{
    let n = s.unicode_len();
    n > 0 && s.get_char(0) == c
}

/// The texts of `parts` joined with `sep` between them (`join`).
pub open spec fn join_seq(parts: Seq<Seq<char>>, sep: Seq<char>) -> Seq<char>
    decreases parts.len(),
{
    if parts.len() == 0 {
        Seq::empty()
    } else if parts.len() == 1 {
        parts[0]
    } else {
        join_seq(parts.drop_last(), sep) + sep + parts.last()
    }
}

/// The views of a list of strings.
pub open spec fn views(v: Seq<String>) -> Seq<Seq<char>> {
    v.map_values(|s: String| s@)
}

/// The strings of `parts` joined with `sep` between them (`parts.join(sep)`).
pub fn join_strings(parts: &Vec<String>, sep: &str) -> (r: String)
    ensures
        r@ == join_seq(views(parts@), sep@),
{
    let mut out = String::new();
    let mut i: usize = 0;
    while i < parts.len()
        invariant
            i <= parts@.len(),
            out@ == join_seq(views(parts@.subrange(0, i as int)), sep@),
        decreases parts@.len() - i,
    {
        let ghost before = views(parts@.subrange(0, i as int));
        if i > 0 {
            push_str(&mut out, sep);
        }
        push_str(&mut out, parts[i].as_str());
        proof {
            let after = views(parts@.subrange(0, i + 1));
            assert(after.drop_last() =~= before);
            assert(after.last() == parts@[i as int]@);
            if i == 0 {
                assert(after.len() == 1);
                assert(out@ =~= after[0]);
            }
        }
        i = i + 1;
    }
    assert(parts@.subrange(0, parts@.len() as int) =~= parts@);
    out
}

/// A text without the characters `c` at its start and end
/// (`s.trim_matches(c)`).
pub open spec fn trim_char_seq(s: Seq<char>, c: char) -> Seq<char>
    decreases s.len(),
{
    if s.len() > 0 && s[0] == c {
        trim_char_seq(s.drop_first(), c)
    } else if s.len() > 0 && s.last() == c {
        trim_char_seq(s.drop_last(), c)
    } else {
        s
    }
}

/// The text without the characters `c` at its start and end.
pub fn trim_char(s: &str, c: char) -> (r: String)
    ensures
        r@ == trim_char_seq(s@, c),
{
    let n = s.unicode_len();
    let mut a: usize = 0;
    let mut b: usize = n;
    assert(s@.subrange(0, n as int) =~= s@);
    while a < b && s.get_char(a) == c
        invariant
            n == s@.len(),
            a <= b <= n,
            b == n,
            trim_char_seq(s@, c) == trim_char_seq(s@.subrange(a as int, b as int), c),
        decreases b - a,
    {
        assert(s@.subrange(a as int, b as int).drop_first() =~= s@.subrange(a + 1, b as int));
        a = a + 1;
    }
    while a < b && s.get_char(b - 1) == c
        invariant
            n == s@.len(),
            a <= b <= n,
            a < b ==> s@[a as int] != c,
            trim_char_seq(s@, c) == trim_char_seq(s@.subrange(a as int, b as int), c),
        decreases b - a,
    {
        let ghost t = s@.subrange(a as int, b as int);
        assert(t.drop_last() =~= s@.subrange(a as int, b - 1));
        assert(t[0] == s@[a as int]);
        b = b - 1;
    }
    proof {
        let t = s@.subrange(a as int, b as int);
        if a < b {
            assert(t[0] == s@[a as int]);
            assert(t.last() == s@[b - 1]);
        }
        assert(s@.subrange(0, n as int) =~= s@);
    }
    to_owned_string(s.substring_char(a, b))
}

} // verus!

verus! {

/// `d` with zeros put in front until it is `w` characters long.
pub open spec fn pad_zeros(d: Seq<char>, w: nat) -> Seq<char> {
    if d.len() >= w {
        d
    } else {
        Seq::new((w - d.len()) as nat, |i: int| '0') + d
    }
}

/// `s` without the zeros at its end.
pub open spec fn trim_trailing_zeros(s: Seq<char>) -> Seq<char>
    decreases s.len(),
{
    if s.len() > 0 && s.last() == '0' {
        trim_trailing_zeros(s.drop_last())
    } else {
        s
    }
}

/// The decimal text of `mantissa / 10^scale`: its integer digits, and the
/// fractional digits without trailing zeros after a point when any remain
/// (how such a value is displayed).
pub open spec fn decimal_text(mantissa: int, scale: nat) -> Seq<char> {
    let mag: nat = if mantissa < 0 { (-mantissa) as nat } else { mantissa as nat };
    let d = pad_zeros(nat_digits(mag), scale + 1);
    let ip = d.subrange(0, d.len() - scale);
    let fp = trim_trailing_zeros(d.subrange(d.len() - scale, d.len() as int));
    (if mantissa < 0 { "-"@ } else { ""@ }) + ip + (if fp.len() == 0 { ""@ } else { "."@ + fp })
}

/// `nat_digits` never gives the empty text.
proof fn lemma_nat_digits_nonempty(n: nat)
    ensures
        nat_digits(n).len() >= 1,
    decreases n,
{
    if n >= 10 {
        lemma_nat_digits_nonempty(n / 10);
    }
}

/// A decimal with no digits after the point is written as its integer.
pub proof fn lemma_whole_decimal_text(m: int)
    ensures
        decimal_text(m, 0) == int_text(m),
{
    let mag: nat = if m < 0 { (-m) as nat } else { m as nat };
    lemma_nat_digits_nonempty(mag);
    let d = pad_zeros(nat_digits(mag), 1);
    assert(d == nat_digits(mag));
    assert(d.subrange(0, d.len() as int) =~= d);
    assert(d.subrange(d.len() as int, d.len() as int) =~= Seq::<char>::empty());
    reveal_strlit("-");
    reveal_strlit("");
    if m < 0 {
        assert(decimal_text(m, 0) =~= int_text(m));
    } else {
        assert(decimal_text(m, 0) =~= int_text(m));
    }
}

/// `d` with zeros put in front until it is `w` characters long.
fn zero_padded(d: &str, w: u64) -> (r: String)
    ensures
        r@ == pad_zeros(d@, w as nat),
{
    let n = d.unicode_len();
    let mut padded = String::new();
    let mut z: u64 = 0;
    let zeros: u64 = if (n as u64) < w { w - n as u64 } else { 0 };
    while z < zeros
        invariant
            z <= zeros,
            padded@ == Seq::new(z as nat, |i: int| '0'),
        decreases zeros - z,
    {
        string_push(&mut padded, '0');
        z = z + 1;
        assert(padded@ =~= Seq::new(z as nat, |i: int| '0'));
    }
    push_str(&mut padded, d);
    assert(padded@ =~= pad_zeros(d@, w as nat));
    padded
}

/// Where the digits after `cut` end once their trailing zeros are taken off.
fn fraction_end(padded: &str, cut: usize) -> (end: usize)
    requires
        cut <= padded@.len(),
    ensures
        cut <= end <= padded@.len(),
        padded@.subrange(cut as int, end as int) == trim_trailing_zeros(padded@.subrange(cut as int, padded@.len() as int)),
{
    let total = padded.unicode_len();
    let mut end: usize = total;
    let ghost fr = padded@.subrange(cut as int, total as int);
    assert(fr.subrange(0, (total - cut) as int) =~= fr);
    while end > cut && padded.get_char(end - 1) == '0'
        invariant
            cut <= end <= total,
            total == padded@.len(),
            fr == padded@.subrange(cut as int, total as int),
            trim_trailing_zeros(fr) == trim_trailing_zeros(padded@.subrange(cut as int, end as int)),
        decreases end,
    {
        assert(padded@.subrange(cut as int, end as int).drop_last() =~= padded@.subrange(cut as int, end - 1));
        end = end - 1;
    }
    let ghost tail = padded@.subrange(cut as int, end as int);
    if end == cut {
        assert(tail =~= Seq::<char>::empty());
    } else {
        assert(tail.last() == padded@[end - 1]);
    }
    assert(trim_trailing_zeros(tail) == tail);
    end
}

/// The decimal text of `mantissa / 10^scale`.
pub fn decimal_to_string(mantissa: i64, scale: u32) -> (r: String)
    ensures
        r@ == decimal_text(mantissa as int, scale as nat),
{
    let mag: u64 = if mantissa < 0 { ((0i64 - (mantissa + 1)) as u64) + 1 } else { mantissa as u64 };
    let ghost magn: nat = if mantissa < 0 { (-mantissa) as nat } else { mantissa as nat };
    assert(mag as nat == magn);
    let mut digits = String::new();
    push_u64_digits(&mut digits, mag);
    assert(digits@ =~= nat_digits(magn));
    let padded = zero_padded(digits.as_str(), scale as u64 + 1);
    let ghost d = pad_zeros(nat_digits(magn), scale as nat + 1);
    assert(padded@ == d);
    let total = padded.as_str().unicode_len();
    let cut: usize = total - scale as usize;
    let ip = padded.as_str().substring_char(0, cut);
    let end = fraction_end(padded.as_str(), cut);
    let fp = padded.as_str().substring_char(cut, end);
    let mut out = String::new();
    if mantissa < 0 {
        string_push(&mut out, '-');
    }
    push_str(&mut out, ip);
    if end > cut {
        string_push(&mut out, '.');
        push_str(&mut out, fp);
    }
    proof {
        let tail = padded@.subrange(cut as int, end as int);
        assert(fp@ == tail);
        assert(ip@ == d.subrange(0, d.len() - scale));
        let sign: Seq<char> = if mantissa < 0 { "-"@ } else { ""@ };
        let rest: Seq<char> = if tail.len() == 0 { ""@ } else { "."@ + tail };
        assert(decimal_text(mantissa as int, scale as nat) == sign + ip@ + rest);
        if mantissa < 0 {
            reveal_strlit("-");
        }
        reveal_strlit(".");
        reveal_strlit("");
        assert(out@ =~= sign + ip@ + rest);
    }
    out
}

} // verus!
