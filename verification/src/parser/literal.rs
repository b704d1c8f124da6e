//! Values of literal tokens: what `str::parse` and `str::trim_matches`
//! compute on their text, written out and proved.
use vstd::prelude::*;

use crate::lexer::is_digit;

verus! {

/// The value of a string of decimal digits.
pub open spec fn digits_value(s: Seq<char>) -> int
    decreases s.len(),
{
    if s.len() == 0 {
        0
    } else {
        digits_value(s.drop_last()) * 10 + (s.last() as int - '0' as int)
    }
}

/// Decimal place value: the digits of `s` followed by those of `t` are
/// worth `s`'s value times ten to the length of `t`, plus `t`'s value; a
/// single digit is worth itself.
pub proof fn lemma_digits_value_concat(s: Seq<char>, t: Seq<char>)
    ensures
        digits_value(s + t) == digits_value(s) * vstd::arithmetic::power::pow(10, t.len())
            + digits_value(t),
        t.len() == 1 ==> digits_value(t) == t[0] as int - '0' as int,
    decreases t.len(),
{
    if t.len() == 0 {
        assert(s + t =~= s);
        vstd::arithmetic::power::lemma_pow0(10);
    } else {
        let t1 = t.drop_last();
        lemma_digits_value_concat(s, t1);
        assert((s + t).drop_last() =~= s + t1);
        assert((s + t).last() == t.last());
        let p = vstd::arithmetic::power::pow(10, t1.len());
        vstd::arithmetic::power::lemma_pow_adds(10, t1.len(), 1);
        vstd::arithmetic::power::lemma_pow1(10);
        assert(t1.len() + 1 == t.len());
        assert(vstd::arithmetic::power::pow(10, t.len()) == p * 10);
        assert(p * 10 == 10 * p) by (nonlinear_arith);
        let a = digits_value(s);
        let b = digits_value(t1);
        assert((a * p + b) * 10 == a * (10 * p) + b * 10) by (nonlinear_arith);
        if t.len() == 1 {
            assert(t1.len() == 0);
        }
    }
}

pub open spec fn all_digits(s: Seq<char>) -> bool {
    forall|i: int| 0 <= i < s.len() ==> is_digit(#[trigger] s[i])
}

/// An optional sign followed by decimal digits, as `i32` parsing reads it.
pub open spec fn spec_parse_i32(s: Seq<char>) -> Option<i32> {
    let signed = s.len() > 0 && (s[0] == '+' || s[0] == '-');
    let body = if signed { s.drop_first() } else { s };
    let v = if signed && s[0] == '-' { -digits_value(body) } else { digits_value(body) };
    if body.len() == 0 || !all_digits(body) {
        None
    } else if i32::MIN <= v <= i32::MAX {
        Some(v as i32)
    } else {
        None
    }
}

/// Reading an integer: a run of decimal digits is read as its value, with
/// a leading `-` as minus that value and a leading `+` as that value, when
/// the result fits in an `i32`; text with a character other than a digit
/// after the sign, or no digit at all, is not an integer.
pub proof fn lemma_parse_i32_reads_decimal(d: Seq<char>)
    ensures
        all_digits(d) && d.len() > 0 && digits_value(d) <= i32::MAX ==> spec_parse_i32(d) == Some(
            digits_value(d) as i32,
        ) && spec_parse_i32(seq!['+'] + d) == Some(digits_value(d) as i32),
        all_digits(d) && d.len() > 0 && digits_value(d) <= 0x8000_0000 ==> spec_parse_i32(
            seq!['-'] + d,
        ) == Some((-digits_value(d)) as i32),
        !all_digits(d) || d.len() == 0 ==> spec_parse_i32(seq!['-'] + d) is None && spec_parse_i32(
            seq!['+'] + d,
        ) is None,
{
    assert((seq!['-'] + d).drop_first() =~= d);
    assert((seq!['+'] + d).drop_first() =~= d);
    if all_digits(d) && d.len() > 0 {
        lemma_digits_value_nonneg(d);
        assert(!(d[0] == '+' || d[0] == '-'));
    }
}

proof fn lemma_digits_value_nonneg(s: Seq<char>)
    requires
        all_digits(s),
    ensures
        digits_value(s) >= 0,
        s.len() > 0 ==> is_digit(s[0]),
    decreases s.len(),
{
    if s.len() > 0 {
        assert(all_digits(s.drop_last()));
        lemma_digits_value_nonneg(s.drop_last());
    }
}

/// Parses `s` as a decimal `i32`, with an optional sign.
pub fn parse_i32(s: &str) -> (r: Option<i32>)
    ensures
        r == spec_parse_i32(s@),
{
    let n = s.unicode_len();
    let mut start: usize = 0;
    let mut neg = false;
    if n > 0 {
        let c0 = s.get_char(0);
        if c0 == '+' || c0 == '-' {
            start = 1;
            neg = c0 == '-';
        }
    }
    let ghost body = if start == 1 { s@.drop_first() } else { s@ };
    if start >= n {
        return None;
    }
    let mut acc: u64 = 0;
    let mut over = false;
    let mut ok = true;
    let mut i: usize = start;
    while i < n
        invariant
            n == s@.len(),
            start <= i <= n,
            body == s@.subrange(start as int, n as int),
            ok == all_digits(s@.subrange(start as int, i as int)),
            ok && !over ==> acc == digits_value(s@.subrange(start as int, i as int)),
            ok && !over ==> acc <= 0x8000_0000,
            ok && over ==> digits_value(s@.subrange(start as int, i as int)) > 0x8000_0000,
        decreases n - i,
    {
        let c = s.get_char(i);
        let ghost pre = s@.subrange(start as int, i as int);
        let ghost next = s@.subrange(start as int, i + 1);
        assert(next.drop_last() =~= pre);
        assert(next.last() == c);
        if !('0' <= c && c <= '9') {
            ok = false;
            assert(!all_digits(next));
        } else if ok {
            assert(all_digits(next));
            let d = (c as u32 - '0' as u32) as u64;
            if !over {
                let v = acc * 10 + d;
                if v > 0x8000_0000 {
                    over = true;
                } else {
                    acc = v;
                }
            }
        } else {
            assert(!all_digits(next)) by {
                let k = choose|k: int| 0 <= k < pre.len() && !is_digit(#[trigger] pre[k]);
                assert(next[k] == pre[k]);
            }
        }
        i += 1;
    }
    assert(s@.subrange(start as int, n as int) =~= body);
    if !ok || over {
        return None;
    }
    let v: i64 = if neg { -(acc as i64) } else { acc as i64 };
    if v < -2147483648 || v > 2147483647 {
        None
    } else {
        Some(v as i32)
    }
}

/// The boolean a literal's text denotes.
pub open spec fn spec_parse_bool(s: Seq<char>) -> Option<bool> {
    if s == seq!['t', 'r', 'u', 'e'] {
        Some(true)
    } else if s == seq!['f', 'a', 'l', 's', 'e'] {
        Some(false)
    } else {
        None
    }
}

/// Parses the text of a boolean literal.
pub fn parse_bool(s: &str) -> (r: Option<bool>)
    ensures
        r == spec_parse_bool(s@),
{
    proof {
        reveal_strlit("true");
        reveal_strlit("false");
    }
    assert("true"@ =~= seq!['t', 'r', 'u', 'e']);
    assert("false"@ =~= seq!['f', 'a', 'l', 's', 'e']);
    if str_equal(s, "true") {
        Some(true)
    } else if str_equal(s, "false") {
        Some(false)
    } else {
        None
    }
}

/// Equality of the texts of two strings.
pub fn str_equal(a: &str, b: &str) -> (r: bool)
    ensures
        r == (a@ == b@),
{
    let n = a.unicode_len();
    if n != b.unicode_len() {
        return false;
    }
    let mut i: usize = 0;
    while i < n
        invariant
            n == a@.len(),
            n == b@.len(),
            i <= n,
            forall|j: int| 0 <= j < i ==> a@[j] == b@[j],
        decreases n - i,
    {
        if a.get_char(i) != b.get_char(i) {
            return false;
        }
        i += 1;
    }
    assert(a@ =~= b@);
    true
}

/// First index at or after `i` whose character is not a double quote.
pub open spec fn quotes_end(s: Seq<char>, i: int) -> int
    decreases s.len() - i,
{
    if 0 <= i < s.len() && s[i] == '"' {
        quotes_end(s, i + 1)
    } else {
        i
    }
}

/// Start of the run of double quotes that ends at `j`, not going below `lo`.
pub open spec fn quotes_start(s: Seq<char>, lo: int, j: int) -> int
    decreases j - lo,
{
    if lo < j && s[j - 1] == '"' {
        quotes_start(s, lo, j - 1)
    } else {
        j
    }
}

/// `s` with its leading and then its trailing double quotes removed.
pub open spec fn spec_trim_quotes(s: Seq<char>) -> Seq<char> {
    let lo = quotes_end(s, 0);
    s.subrange(lo, quotes_start(s, lo, s.len() as int))
}

proof fn lemma_quotes_bounds(s: Seq<char>, i: int, lo: int, j: int)
    requires
        0 <= i <= s.len(),
        0 <= lo <= j <= s.len(),
    ensures
        i <= quotes_end(s, i) <= s.len(),
        lo <= quotes_start(s, lo, j) <= j,
    decreases s.len() - i + j - lo,
{
    if 0 <= i < s.len() && s[i] == '"' {
        lemma_quotes_bounds(s, i + 1, lo, j);
    } else if lo < j && s[j - 1] == '"' {
        lemma_quotes_bounds(s, i, lo, j - 1);
    }
}

/// Removes the double quotes around a string literal's text.
pub fn trim_quotes(s: &str) -> (r: &str)
    ensures
        r@ == spec_trim_quotes(s@),
{
    let n = s.unicode_len();
    let mut lo: usize = 0;
    while lo < n && s.get_char(lo) == '"'
        invariant
            n == s@.len(),
            lo <= n,
            quotes_end(s@, lo as int) == quotes_end(s@, 0),
        decreases n - lo,
    {
        lo += 1;
    }
    let mut hi: usize = n;
    while hi > lo && s.get_char(hi - 1) == '"'
        invariant
            n == s@.len(),
            lo <= hi <= n,
            lo == quotes_end(s@, 0),
            quotes_start(s@, lo as int, hi as int) == quotes_start(s@, lo as int, n as int),
        decreases hi - lo,
    {
        hi -= 1;
    }
    s.substring_char(lo, hi)
}

} // verus!

verus! {

/// Why a text is not a `usize`, as `usize` parsing reports it.
#[derive(Debug, Clone, Copy, PartialEq, Eq, Structural)]
pub enum IntErrorKind {
    /// The text is empty.
    Empty,
    /// A character is not a digit, or the text is a lone sign.
    InvalidDigit,
    /// The value is larger than `usize::MAX`.
    PosOverflow,
}

/// Reads decimal digits from index `i` on, `acc` being the value so far;
/// the first bad character or the first overflow stops the scan.
pub open spec fn usize_scan(s: Seq<char>, i: int, acc: int) -> Result<int, IntErrorKind>
    decreases s.len() - i,
{
    if i < 0 || i >= s.len() {
        Ok(acc)
    } else if !is_digit(s[i]) {
        Err(IntErrorKind::InvalidDigit)
    } else {
        let a = acc * 10 + (s[i] as int - '0' as int);
        if a > usize::MAX {
            Err(IntErrorKind::PosOverflow)
        } else {
            usize_scan(s, i + 1, a)
        }
    }
}

/// Decimal `usize` parsing: an optional `+`, then digits.
pub open spec fn spec_parse_usize(s: Seq<char>) -> Result<usize, IntErrorKind> {
    if s.len() == 0 {
        Err(IntErrorKind::Empty)
    } else if (s[0] == '+' || s[0] == '-') && s.len() == 1 {
        Err(IntErrorKind::InvalidDigit)
    } else {
        match usize_scan(s, if s[0] == '+' { 1 } else { 0 }, 0) {
            Ok(v) => Ok(v as usize),
            Err(e) => Err(e),
        }
    }
}

/// Parses `s` as a decimal `usize`.
pub fn parse_usize(s: &str) -> (r: Result<usize, IntErrorKind>)
    ensures
        r == spec_parse_usize(s@),
{
    let n = s.unicode_len();
    if n == 0 {
        return Err(IntErrorKind::Empty);
    }
    let c0 = s.get_char(0);
    if (c0 == '+' || c0 == '-') && n == 1 {
        return Err(IntErrorKind::InvalidDigit);
    }
    let mut i: usize = if c0 == '+' { 1 } else { 0 };
    let mut acc: usize = 0;
    let ghost target = usize_scan(s@, i as int, 0);
    while i < n
        invariant
            n == s@.len(),
            i <= n,
            usize_scan(s@, i as int, acc as int) == target,
            spec_parse_usize(s@) == (match target {
                Ok(v) => Ok(v as usize),
                Err(e) => Err(e),
            }),
        decreases n - i,
    {
        let c = s.get_char(i);
        if !('0' <= c && c <= '9') {
            return Err(IntErrorKind::InvalidDigit);
        }
        let d = (c as u32 - '0' as u32) as usize;
        let m = acc.checked_mul(10);
        let a = match m {
            Some(m) => m.checked_add(d),
            None => None,
        };
        match a {
            Some(a) => {
                acc = a;
            },
            None => {
                return Err(IntErrorKind::PosOverflow);
            },
        }
        i += 1;
    }
    Ok(acc)
}

} // verus!
