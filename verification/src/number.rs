//! Numbers in decimal notation.

use crate::text::characters;
use vstd::prelude::*;

verus! {

/// The character for the digit `d`.
pub open spec fn digit(d: nat) -> char {
    ('0' as u32 + d) as char
}

/// `n` in decimal notation, without leading zeros.
pub open spec fn decimal(n: nat) -> Seq<char>
    decreases n,
{
    if n < 10 {
        seq![digit(n)]
    } else {
        decimal(n / 10).push(digit(n % 10))
    }
}

/// Whether `c` is one of the ten ASCII digits.
pub open spec fn is_digit(c: char) -> bool {
    '0' <= c && c <= '9'
}

/// Whether `s` holds nothing but ASCII digits, and at least one.
pub open spec fn is_number(s: Seq<char>) -> bool {
    s.len() > 0 && forall|i: int| 0 <= i < s.len() ==> is_digit(#[trigger] s[i])
}

/// The value of a run of digits.
pub open spec fn value(s: Seq<char>) -> nat
    decreases s.len(),
{
    if s.len() == 0 {
        0
    } else {
        10 * value(s.drop_last()) + (s.last() as nat - '0' as nat) as nat
    }
}

/// The integer that `s` writes: digits after an optional sign. `None` when `s`
/// writes none.
pub open spec fn integer(s: Seq<char>) -> Option<int> {
    let signed = s.len() > 0 && (s[0] == '+' || s[0] == '-');
    let digits = if signed { s.skip(1) } else { s };
    if !is_number(digits) {
        None
    } else if s[0] == '-' {
        Some(-value(digits))
    } else {
        Some(value(digits) as int)
    }
}

/// The count that the archive's text `s` stands for: the integer it writes, or
/// zero when it writes none that fits an `i64`.
pub open spec fn count_of(s: Seq<char>) -> int {
    match integer(s) {
        Some(n) => if i64::MIN <= n <= i64::MAX { n } else { 0 },
        None => 0,
    }
}

proof fn lemma_value_grows(s: Seq<char>, k: int)
    requires
        is_number(s),
        0 <= k <= s.len(),
    ensures
        value(s.take(k)) <= value(s),
    decreases s.len() - k,
{
    if k < s.len() {
        lemma_value_grows(s, k + 1);
        assert(s.take(k + 1).drop_last() == s.take(k));
    } else {
        assert(s.take(k) == s);
    }
}

/// Reads a count out of the archive, where counts are written as text.
pub fn parse_count(s: &str) -> (r: i64)
    ensures
        r == count_of(s@),
{
    let cs = characters(s);
    if cs.len() == 0 {
        return 0;
    }
    let negative = cs[0] == '-';
    let first: usize = if negative || cs[0] == '+' { 1 } else { 0 };
    let ghost digits = s@.skip(first as int);
    if cs.len() == first {
        return 0;
    }
    let mut magnitude: u64 = 0;
    let mut i: usize = first;
    assert(digits.take(0) == Seq::<char>::empty());
    assert(first == 0 ==> digits == s@);
    while i < cs.len()
        invariant
            cs@ == s@,
            first <= i <= cs@.len(),
            first <= 1,
            cs@.len() > first,
            digits == s@.skip(first as int),
            first == 0 ==> digits == s@,
            first == 1 <==> (s@[0] == '+' || s@[0] == '-'),
            forall|j: int| 0 <= j < i - first ==> is_digit(#[trigger] digits[j]),
            magnitude == value(digits.take(i - first)),
            magnitude <= 0x8000_0000_0000_0000,
        decreases cs@.len() - i,
    {
        let c = cs[i];
        assert(digits[i - first] == c);
        if !(('0' <= c) && (c <= '9')) {
            assert(!is_digit(digits[i - first]));
            return 0;
        }
        let d: u64 = c as u64 - '0' as u64;
        assert(digits.take(i - first + 1).drop_last() == digits.take(i - first));
        assert(value(digits.take(i - first + 1)) == 10 * magnitude + d);
        if magnitude > (0x8000_0000_0000_0000 - d) / 10 {
            proof {
                if is_number(digits) {
                    lemma_value_grows(digits, i - first + 1);
                }
            }
            return 0;
        }
        magnitude = 10 * magnitude + d;
        i += 1;
    }
    assert(digits.take(i - first) == digits);
    assert(is_number(digits));
    if negative {
        if magnitude == 0x8000_0000_0000_0000 {
            i64::MIN
        } else {
            -(magnitude as i64)
        }
    } else if magnitude == 0x8000_0000_0000_0000 {
        0
    } else {
        magnitude as i64
    }
}

/// Writes `n` in decimal notation.
pub fn write_decimal(n: usize) -> (r: String)
    ensures
        r@ == decimal(n as nat),
    decreases n,
{
    let mut r = if n < 10 {
        String::new()
    } else {
        write_decimal(n / 10)
    };
    let d: u8 = (n % 10) as u8;
    r.push(('0' as u8 + d) as char);
    assert(r@ =~= decimal(n as nat));
    r
}

pub(crate) proof fn lemma_decimal_is_number(n: nat)
    ensures
        is_number(decimal(n)),
        value(decimal(n)) == n,
    decreases n,
{
    let s = decimal(n);
    if n >= 10 {
        lemma_decimal_is_number(n / 10);
        assert(s.drop_last() == decimal(n / 10));
    } else {
        assert(value(s.drop_last()) == 0);
    }
    assert(value(s) == 10 * value(s.drop_last()) + n % 10);
}

/// A count written in decimal notation reads back as itself.
pub proof fn law_decimal_reads_back(n: nat)
    ensures
        integer(decimal(n)) == Some(n as int),
        n <= i64::MAX ==> count_of(decimal(n)) == n,
{
    lemma_decimal_is_number(n);
    assert(is_digit(decimal(n)[0]));
}

/// Decimal notation is built digit by digit: a number below ten is its digit,
/// and a further digit makes ten times the number and that digit.
pub proof fn law_decimal_grows_by_digits(n: nat, d: nat)
    requires
        d < 10,
    ensures
        decimal(d) == seq![('0' as u32 + d) as char],
        n > 0 ==> decimal(10 * n + d) == decimal(n).push(('0' as u32 + d) as char),
{
    let m = 10 * n + d;
    if n > 0 {
        assert(m / 10 == n && m % 10 == d);
    }
}

/// Different numbers are written differently.
pub proof fn law_decimal_tells_numbers_apart(a: nat, b: nat)
    requires
        decimal(a) == decimal(b),
    ensures
        a == b,
{
    lemma_decimal_is_number(a);
    lemma_decimal_is_number(b);
}

/// A run of digits is read digit by digit, each weighing a tenth of the one
/// before it; any other character makes it no number.
pub proof fn law_digits_are_read_in_order(s: Seq<char>, c: char)
    ensures
        !is_number(Seq::empty()),
        value(Seq::empty()) == 0,
        is_number(seq![c]) <==> 48 <= c as int <= 57,
        s.len() > 0 ==> (is_number(s.push(c)) <==> is_number(s) && 48 <= c as int <= 57),
        48 <= c as int <= 57 ==> value(s.push(c)) == 10 * value(s) + (c as int - 48),
{
    assert(s.push(c).drop_last() =~= s);
    assert(seq![c][0] == c);
    let t = s.push(c);
    assert(t[s.len() as int] == c);
    if s.len() > 0 && is_number(t) {
        assert forall|i: int| 0 <= i < s.len() implies is_digit(#[trigger] s[i]) by {
            assert(t[i] == s[i]);
        }
    }
}

/// An integer is a run of digits with at most one sign before it, and nothing
/// else is one.
pub proof fn law_integers_may_have_a_sign(digits: Seq<char>, s: Seq<char>)
    ensures
        is_number(digits) ==> {
            &&& integer(digits) == Some(value(digits) as int)
            &&& integer(seq!['+'] + digits) == Some(value(digits) as int)
            &&& integer(seq!['-'] + digits) == Some(-value(digits))
        },
        integer(s) is Some ==> is_number(s) || (s.len() > 1 && (s[0] == '+' || s[0] == '-')
            && is_number(s.skip(1))),
{
    assert((seq!['+'] + digits).skip(1) =~= digits);
    assert((seq!['-'] + digits).skip(1) =~= digits);
    if is_number(digits) {
        assert(is_digit(digits[0]));
    }
}

/// A count is the integer that its text writes, as long as it fits 64 bits;
/// any other text counts as zero.
pub proof fn law_counts_are_integers(s: Seq<char>)
    ensures
        integer(s) is None ==> count_of(s) == 0,
        integer(s) matches Some(n) ==> {
            &&& -0x8000_0000_0000_0000 <= n <= 0x7fff_ffff_ffff_ffff ==> count_of(s) == n
            &&& !(-0x8000_0000_0000_0000 <= n <= 0x7fff_ffff_ffff_ffff) ==> count_of(s) == 0
        },
{
}

} // verus!
