//! Decimal integers: what `str::parse` accepts and what `to_string` prints.
use vstd::prelude::*;

use crate::text::{digit_value, is_digit, is_digit_char, push_char};

verus! {

pub open spec fn all_digits(s: Seq<char>) -> bool {
    forall|i: int| 0 <= i < s.len() ==> is_digit(#[trigger] s[i])
}

/// The number written by the decimal digits `s`.
pub open spec fn digits_value(s: Seq<char>) -> int
    decreases s.len(),
{
    if s.len() == 0 {
        0
    } else {
        digits_value(s.drop_last()) * 10 + digit_value(s.last())
    }
}

/// The integer written in `s`: an optional sign followed by at least one
/// ASCII digit, as `str::parse` reads it before its range check.
pub open spec fn signed_value(s: Seq<char>) -> Option<int> {
    if s.len() > 1 && s[0] == '+' && all_digits(s.skip(1)) {
        Some(digits_value(s.skip(1)))
    } else if s.len() > 1 && s[0] == '-' && all_digits(s.skip(1)) {
        Some(-digits_value(s.skip(1)))
    } else if s.len() > 0 && all_digits(s) {
        Some(digits_value(s))
    } else {
        None
    }
}

/// `s.parse::<i32>()`, with `Err` as `None`.
pub open spec fn parse_i32_spec(s: Seq<char>) -> Option<i32> {
    match signed_value(s) {
        Some(v) => if i32::MIN <= v <= i32::MAX {
            Some(v as i32)
        } else {
            None
        },
        None => None,
    }
}

/// `s.parse::<u16>()`, with `Err` as `None`: no minus sign is accepted.
pub open spec fn parse_u16_spec(s: Seq<char>) -> Option<u16> {
    if s.len() > 0 && s[0] == '-' {
        None
    } else {
        match signed_value(s) {
            Some(v) => if 0 <= v <= u16::MAX {
                Some(v as u16)
            } else {
                None
            },
            None => None,
        }
    }
}

pub open spec fn digit_char(d: int) -> char {
    (d + 0x30) as char
}

/// Decimal digits of `n` without leading zeros.
pub open spec fn nat_digits(n: nat) -> Seq<char>
    decreases n,
{
    if n < 10 {
        seq![digit_char(n as int)]
    } else {
        nat_digits(n / 10).push(digit_char((n % 10) as int))
    }
}

/// `v.to_string()` for an integer `v`.
pub open spec fn int_decimal(v: int) -> Seq<char> {
    if v < 0 {
        seq!['-'] + nat_digits((-v) as nat)
    } else {
        nat_digits(v as nat)
    }
}

/// Decimal digits never write a negative number.
pub proof fn lemma_digits_value_nonneg(s: Seq<char>)
    requires
        all_digits(s),
    ensures
        digits_value(s) >= 0,
    decreases s.len(),
{
    if s.len() > 0 {
        lemma_digits_value_nonneg(s.drop_last());
    }
}

/// Appending digits never makes the number smaller.
pub proof fn lemma_digits_value_prefix(s: Seq<char>, k: int)
    requires
        all_digits(s),
        0 <= k <= s.len(),
    ensures
        digits_value(s.take(k)) <= digits_value(s),
    decreases s.len() - k,
{
    if k < s.len() {
        assert(s.drop_last().take(k) =~= s.take(k));
        lemma_digits_value_prefix(s.drop_last(), k);
        lemma_digits_value_nonneg(s.drop_last());
    } else {
        assert(s.take(k) =~= s);
    }
}

/// The printed digits of `n` are plain digits, at least one, and read back as `n`.
pub proof fn lemma_nat_digits(n: nat)
    ensures
        all_digits(nat_digits(n)),
        digits_value(nat_digits(n)) == n,
        nat_digits(n).len() >= 1,
        is_digit(nat_digits(n)[0]),
    decreases n,
{
    lemma_digit_char((n % 10) as int);
    if n >= 10 {
        lemma_nat_digits(n / 10);
        let s = nat_digits(n);
        assert(s.drop_last() =~= nat_digits(n / 10));
        assert(s.last() == digit_char((n % 10) as int));
        assert(digits_value(s) == digits_value(nat_digits(n / 10)) * 10 + digit_value(s.last()));
        assert((n / 10) * 10 + n % 10 == n);
    } else {
        assert(n % 10 == n);
        let s = nat_digits(n);
        assert(s.drop_last() =~= Seq::<char>::empty());
        assert(digits_value(s.drop_last()) == 0);
    }
}

/// The character printed for a digit is a digit of that value.
pub proof fn lemma_digit_char(d: int)
    requires
        0 <= d < 10,
    ensures
        is_digit(digit_char(d)),
        digit_value(digit_char(d)) == d,
{
    assert((d + 0x30) as char as u32 == d + 0x30);
}

/// Printing an `i32` and parsing it back gives the same number.
pub proof fn lemma_parse_int_decimal(v: i32)
    ensures
        parse_i32_spec(int_decimal(v as int)) == Some(v),
{
    if v < 0 {
        let m = (-(v as int)) as nat;
        lemma_nat_digits(m);
        let s = int_decimal(v as int);
        assert(s.skip(1) =~= nat_digits(m));
        assert(s[0] == '-');
    } else {
        lemma_nat_digits(v as nat);
    }
}

/// The value of the digits `v[start..]` if they are all ASCII digits, there
/// is at least one, and the value does not exceed `limit`.
fn parse_magnitude(v: &Vec<char>, start: usize, limit: u64) -> (r: Option<u64>)
    requires
        start <= v.len(),
        limit <= u32::MAX,
    ensures
        r matches Some(m) ==> v@.len() > start && all_digits(v@.skip(start as int)) && m
            == digits_value(v@.skip(start as int)) && m <= limit,
        r is None ==> !(v@.len() > start && all_digits(v@.skip(start as int)) && digits_value(
            v@.skip(start as int),
        ) <= limit),
{
    if start == v.len() {
        return None;
    }
    let ghost d = v@.skip(start as int);
    let mut acc: u64 = 0;
    let mut i = start;
    while i < v.len()
        invariant
            start <= i <= v.len(),
            d == v@.skip(start as int),
            all_digits(d.take(i - start)),
            acc == digits_value(d.take(i - start)),
            acc <= limit,
            limit <= u32::MAX,
        decreases v.len() - i,
    {
        let c = v[i];
        if !is_digit_char(c) {
            proof {
                assert(d[i - start] == c);
            }
            return None;
        }
        let dv = (c as u32 - 0x30) as u64;
        proof {
            let t = d.take(i - start + 1);
            assert(t.drop_last() =~= d.take(i - start));
            assert(t.last() == c);
        }
        acc = acc * 10 + dv;
        i = i + 1;
        proof {
            assert(all_digits(d.take(i - start))) by {
                assert forall|j: int| 0 <= j < d.take(i - start).len() implies is_digit(
                    #[trigger] d.take(i - start)[j],
                ) by {
                    if j < i - 1 - start {
                        assert(d.take(i - start)[j] == d.take(i - 1 - start)[j]);
                    }
                }
            }
        }
        if acc > limit {
            proof {
                if all_digits(d) {
                    lemma_digits_value_prefix(d, i - start);
                }
            }
            return None;
        }
    }
    assert(d.take(i - start) =~= d);
    Some(acc)
}

/// `s.parse::<i32>()`, with `Err` as `None`.
pub fn parse_i32(v: &Vec<char>) -> (r: Option<i32>)
    ensures
        r == parse_i32_spec(v@),
{
    if v.len() > 1 && v[0] == '+' {
        match parse_magnitude(v, 1, 2147483647) {
            Some(m) => Some(m as i32),
            None => {
                proof {
                    if all_digits(v@.skip(1)) {
                        lemma_digits_value_nonneg(v@.skip(1));
                    }
                }
                None
            },
        }
    } else if v.len() > 1 && v[0] == '-' {
        match parse_magnitude(v, 1, 2147483648) {
            Some(m) => {
                let r = (0 - (m as i64)) as i32;
                Some(r)
            },
            None => {
                proof {
                    if all_digits(v@.skip(1)) {
                        lemma_digits_value_nonneg(v@.skip(1));
                    }
                }
                None
            },
        }
    } else {
        proof {
            assert(v@.skip(0) =~= v@);
            if v@.len() > 0 && all_digits(v@) {
                assert(is_digit(v@[0]));
            }
        }
        match parse_magnitude(v, 0, 2147483647) {
            Some(m) => Some(m as i32),
            None => {
                proof {
                    if v@.len() > 0 && all_digits(v@) {
                        lemma_digits_value_nonneg(v@);
                    }
                }
                None
            },
        }
    }
}

/// `s.parse::<u16>()`, with `Err` as `None`.
pub fn parse_u16(v: &Vec<char>) -> (r: Option<u16>)
    ensures
        r == parse_u16_spec(v@),
{
    if v.len() > 0 && v[0] == '-' {
        None
    } else if v.len() > 1 && v[0] == '+' {
        match parse_magnitude(v, 1, 65535) {
            Some(m) => Some(m as u16),
            None => {
                proof {
                    if all_digits(v@.skip(1)) {
                        lemma_digits_value_nonneg(v@.skip(1));
                    }
                }
                None
            },
        }
    } else {
        proof {
            assert(v@.skip(0) =~= v@);
            if v@.len() > 0 && all_digits(v@) {
                assert(is_digit(v@[0]));
            }
        }
        match parse_magnitude(v, 0, 65535) {
            Some(m) => Some(m as u16),
            None => {
                proof {
                    if v@.len() > 0 && all_digits(v@) {
                        lemma_digits_value_nonneg(v@);
                    }
                }
                None
            },
        }
    }
}

fn digit_to_char(d: u64) -> (c: char)
    requires
        d < 10,
    ensures
        c == digit_char(d as int),
{
    match d {
        0 => '0',
        1 => '1',
        2 => '2',
        3 => '3',
        4 => '4',
        5 => '5',
        6 => '6',
        7 => '7',
        8 => '8',
        _ => '9',
    }
}

/// `v.to_string()` for an `i64`.
pub fn fmt_int(v: i64) -> (s: String)
    ensures
        s@ == int_decimal(v as int),
{
    let mag: u64 = if v < 0 {
        ((-(v + 1)) as u64) + 1
    } else {
        v as u64
    };
    assert(mag == if v < 0 {
        -(v as int)
    } else {
        v as int
    });
    let mut m = mag;
    let mut suffix: Vec<char> = Vec::new();
    while m >= 10
        invariant
            nat_digits(mag as nat) == nat_digits(m as nat) + suffix@,
        decreases m,
    {
        let d = m % 10;
        let c = digit_to_char(d);
        proof {
            assert(nat_digits(m as nat) == nat_digits((m / 10) as nat).push(c));
            assert(nat_digits(mag as nat) =~= nat_digits((m / 10) as nat) + seq![c] + suffix@);
        }
        suffix.insert(0, c);
        m = m / 10;
        assert(nat_digits(mag as nat) =~= nat_digits(m as nat) + suffix@);
    }
    let c = digit_to_char(m);
    suffix.insert(0, c);
    assert(suffix@ =~= nat_digits(mag as nat));
    let mut s = String::new();
    if v < 0 {
        push_char(&mut s, '-');
    }
    let mut i: usize = 0;
    let ghost start = s@;
    while i < suffix.len()
        invariant
            i <= suffix.len(),
            s@ == start + suffix@.take(i as int),
        decreases suffix.len() - i,
    {
        push_char(&mut s, suffix[i]);
        i = i + 1;
        assert(s@ =~= start + suffix@.take(i as int));
    }
    assert(suffix@.take(suffix.len() as int) =~= suffix@);
    assert(s@ =~= int_decimal(v as int));
    s
}

pub open spec fn pow10(n: nat) -> int
    decreases n,
{
    if n == 0 {
        1
    } else {
        10 * pow10((n - 1) as nat)
    }
}

/// `k` decimal digits write a number below `10^k`.
pub proof fn lemma_digits_value_bound(d: Seq<char>)
    requires
        all_digits(d),
    ensures
        0 <= digits_value(d) < pow10(d.len()),
    decreases d.len(),
{
    if d.len() > 0 {
        lemma_digits_value_bound(d.drop_last());
        assert(is_digit(d[d.len() - 1]));
    }
}

/// A number written in at most four characters lies strictly between
/// -10000 and 10000.
pub proof fn lemma_short_number(t: Seq<char>)
    requires
        t.len() <= 4,
    ensures
        parse_i32_spec(t) matches Some(v) ==> -10000 < v < 10000,
{
    assert(pow10(0) == 1);
    assert(pow10(1) == 10);
    assert(pow10(2) == 100);
    assert(pow10(3) == 1000);
    assert(pow10(4) == 10000);
    if t.len() > 1 && all_digits(t.skip(1)) {
        lemma_digits_value_bound(t.skip(1));
    }
    if t.len() > 0 && all_digits(t) {
        lemma_digits_value_bound(t);
    }
}

/// A number from 1000 to 9999 prints as four digits.
pub proof fn lemma_four_digits(n: nat)
    requires
        1000 <= n <= 9999,
    ensures
        nat_digits(n).len() == 4,
        all_digits(nat_digits(n)),
{
    lemma_nat_digits(n);
    assert(nat_digits(n / 1000) == seq![digit_char((n / 1000) as int)]);
    assert(nat_digits(n / 100).len() == 2) by {
        assert((n / 100) / 10 == n / 1000);
    }
    assert(nat_digits(n / 10).len() == 3) by {
        assert((n / 10) / 10 == n / 100);
    }
}

/// A year of at least 1001 read from four characters is four plain digits.
pub proof fn lemma_four_char_year(f: Seq<char>)
    requires
        f.len() <= 4,
        parse_i32_spec(f) matches Some(y) && y >= 1000,
    ensures
        f.len() == 4,
        all_digits(f),
{
    assert(pow10(0) == 1);
    assert(pow10(1) == 10);
    assert(pow10(2) == 100);
    assert(pow10(3) == 1000);
    assert(pow10(4) == 10000);
    if f.len() > 1 && f[0] == '+' && all_digits(f.skip(1)) {
        lemma_digits_value_bound(f.skip(1));
    } else if f.len() > 1 && f[0] == '-' && all_digits(f.skip(1)) {
        lemma_digits_value_nonneg(f.skip(1));
    } else {
        lemma_digits_value_bound(f);
    }
}

} // verus!
