//! Approximate day arithmetic on the date strings of the time series:
//! ISO dates (`2023-04-01`), quarters (`2023-Q2`) and bare years (`2023`).
use vstd::prelude::*;

use crate::numbers::{
    all_digits, fmt_int, int_decimal, lemma_four_char_year, lemma_four_digits, lemma_parse_int_decimal,
    lemma_short_number, parse_i32, parse_i32_spec,
};
use crate::text::{
    byte_len, byte_len_of, byte_slice, byte_tail, chars_of, contains_seq, find_chars,
    append_chars, boundary_at, char_index, is_boundary, is_digit, lemma_ascii_prefix,
    lemma_boundary_unique, lemma_byte_len_concat, lemma_same_boundaries, lemma_boundary_le_len, lemma_byte_len_full, lemma_byte_slice_len,
    lemma_chars_le_bytes, occurs_at, occurs_at_exec, slice_chars, slice_ok, string_of, tail_chars,
    tail_ok,
};

verus! {

pub open spec fn dash_q() -> Seq<char> {
    seq!['-', 'Q']
}

pub open spec fn fits_i32(x: int) -> bool {
    i32::MIN <= x <= i32::MAX
}

/// `s[from..to].parse::<i32>()`, given that the slice is defined.
pub open spec fn field(s: Seq<char>, from: int, to: int) -> Option<i32> {
    parse_i32_spec(byte_slice(s, from, to))
}

/// `s[from..].parse::<i32>()`, given that the slice is defined.
pub open spec fn tail_field(s: Seq<char>, from: int) -> Option<i32> {
    parse_i32_spec(byte_tail(s, from))
}

/// `year * 365 + (quarter - 1) * 91` overflows `i32`.
pub open spec fn quarter_overflows(year: int, quarter: int) -> bool {
    !(fits_i32(quarter - 1) && fits_i32((quarter - 1) * 91) && fits_i32(
        year * 365 + (quarter - 1) * 91,
    ))
}

/// Reading a date panics: a byte slice falls outside the string or inside a
/// character, or the quarter arithmetic overflows. Later slices are only
/// reached when the earlier fields parsed.
pub open spec fn date_panics(s: Seq<char>) -> bool {
    if contains_seq(s, dash_q()) {
        ||| !slice_ok(s, 0, 4)
        ||| field(s, 0, 4) is Some && !tail_ok(s, 6)
        ||| field(s, 0, 4) is Some && tail_field(s, 6) is Some && quarter_overflows(
            field(s, 0, 4).unwrap() as int,
            tail_field(s, 6).unwrap() as int,
        )
    } else if byte_len(s) >= 10 {
        ||| !slice_ok(s, 0, 4)
        ||| field(s, 0, 4) is Some && !slice_ok(s, 5, 7)
        ||| field(s, 0, 4) is Some && field(s, 5, 7) is Some && !slice_ok(s, 8, 10)
    } else {
        false
    }
}

/// Approximate day number of a date: 365 days a year, 91 a quarter and 30 a
/// month; a bare year counts from its middle.
pub open spec fn date_days(s: Seq<char>) -> Option<int> {
    if contains_seq(s, dash_q()) {
        match (field(s, 0, 4), tail_field(s, 6)) {
            (Some(y), Some(q)) => Some(y * 365 + (q - 1) * 91),
            _ => None,
        }
    } else if byte_len(s) >= 10 {
        match (field(s, 0, 4), field(s, 5, 7), field(s, 8, 10)) {
            (Some(y), Some(m), Some(d)) => Some(y * 365 + (m - 1) * 30 + d),
            _ => None,
        }
    } else if byte_len(s) == 4 {
        match parse_i32_spec(s) {
            Some(y) => Some(y * 365 + 182),
            None => None,
        }
    } else {
        None
    }
}

/// `date_distance(a, b)` panics.
pub open spec fn distance_panics(a: Seq<char>, b: Seq<char>) -> bool {
    ||| date_panics(a)
    ||| date_panics(b)
    ||| date_days(a) is Some && date_days(b) is Some && !fits_i32(
        date_days(a).unwrap() - date_days(b).unwrap(),
    )
}

pub open spec fn abs(x: int) -> int {
    if x < 0 {
        -x
    } else {
        x
    }
}

/// Days between two dates, or `u32::MAX` when either does not parse.
pub open spec fn distance(a: Seq<char>, b: Seq<char>) -> int {
    match (date_days(a), date_days(b)) {
        (Some(x), Some(y)) => abs(x - y),
        _ => u32::MAX as int,
    }
}

fn dash_q_chars() -> (v: Vec<char>)
    ensures
        v@ == dash_q(),
{
    let mut v = Vec::new();
    v.push('-');
    v.push('Q');
    assert(v@ =~= dash_q());
    v
}

fn field_of(v: &Vec<char>, from: usize, to: usize) -> (r: Option<i32>)
    requires
        slice_ok(v@, from as int, to as int),
    ensures
        r == field(v@, from as int, to as int),
{
    match slice_chars(v, from, to) {
        Some(w) => parse_i32(&w),
        None => None,
    }
}

fn tail_field_of(v: &Vec<char>, from: usize) -> (r: Option<i32>)
    requires
        tail_ok(v@, from as int),
    ensures
        r == tail_field(v@, from as int),
{
    match tail_chars(v, from) {
        Some(w) => parse_i32(&w),
        None => None,
    }
}

/// Day number of the date `v`, when it parses.
fn date_days_of(v: &Vec<char>) -> (r: Option<i64>)
    requires
        !date_panics(v@),
    ensures
        match r {
            Some(x) => date_days(v@) == Some(x as int) && fits_i32(x as int),
            None => date_days(v@) is None,
        },
{
    let dq = dash_q_chars();
    let n = byte_len_of(v);
    if find_chars(v, &dq).is_some() {
        let y = match field_of(v, 0, 4) {
            Some(y) => y,
            None => return None,
        };
        let q = match tail_field_of(v, 6) {
            Some(q) => q,
            None => return None,
        };
        Some(y as i64 * 365 + (q as i64 - 1) * 91)
    } else if n >= 10 {
        let y = match field_of(v, 0, 4) {
            Some(y) => y,
            None => return None,
        };
        let m = match field_of(v, 5, 7) {
            Some(m) => m,
            None => return None,
        };
        let d = match field_of(v, 8, 10) {
            Some(d) => d,
            None => return None,
        };
        proof {
            lemma_short_field(v@, 0, 4);
            lemma_short_field(v@, 5, 7);
            lemma_short_field(v@, 8, 10);
        }
        Some(y as i64 * 365 + (m as i64 - 1) * 30 + d as i64)
    } else if n == 4 {
        proof {
            lemma_whole_field(v@);
        }
        match parse_i32(v) {
            Some(y) => Some(y as i64 * 365 + 182),
            None => None,
        }
    } else {
        None
    }
}

/// A field of at most four bytes holds a number of at most four digits.
proof fn lemma_short_field(s: Seq<char>, from: int, to: int)
    requires
        slice_ok(s, from, to),
        to - from <= 4,
    ensures
        field(s, from, to) matches Some(v) ==> -10000 < v < 10000,
{
    lemma_byte_slice_len(s, from, to);
    lemma_chars_le_bytes(byte_slice(s, from, to));
    lemma_short_number(byte_slice(s, from, to));
}

proof fn lemma_whole_field(s: Seq<char>)
    requires
        byte_len(s) == 4,
    ensures
        parse_i32_spec(s) matches Some(v) ==> -10000 < v < 10000,
{
    lemma_chars_le_bytes(s);
    lemma_short_number(s);
}

/// Approximate number of days between two date strings; `u32::MAX` when
/// either is not a date.
pub fn date_distance(a: &str, b: &str) -> (d: u32)
    requires
        !distance_panics(a@, b@),
    ensures
        d == distance(a@, b@),
{
    let va = chars_of(a);
    let vb = chars_of(b);
    let da = date_days_of(&va);
    let db = date_days_of(&vb);
    match (da, db) {
        (Some(x), Some(y)) => {
            let diff = x - y;
            if diff < 0 {
                (-diff) as u32
            } else {
                diff as u32
            }
        },
        _ => u32::MAX,
    }
}

/// `year_ago(s)` panics: the year is read through a byte slice.
pub open spec fn year_ago_panics(s: Seq<char>) -> bool {
    (contains_seq(s, dash_q()) || byte_len(s) >= 10) && !slice_ok(s, 0, 4)
}

/// The same date one year earlier: the leading year is decremented and the
/// rest of the string is kept, so `2023-Q2` becomes `2022-Q2` and
/// `2023-05-01` becomes `2022-05-01`.
pub open spec fn year_ago_spec(s: Seq<char>) -> Option<Seq<char>> {
    if contains_seq(s, dash_q()) || byte_len(s) >= 10 {
        match field(s, 0, 4) {
            Some(y) => Some(int_decimal(y - 1) + byte_tail(s, 4)),
            None => None,
        }
    } else if byte_len(s) == 4 {
        match parse_i32_spec(s) {
            Some(y) => Some(int_decimal(y - 1)),
            None => None,
        }
    } else {
        None
    }
}

/// A date string approximately one year before `date`.
pub fn year_ago(date: &str) -> (r: Option<String>)
    requires
        !year_ago_panics(date@),
    ensures
        match r {
            Some(t) => year_ago_spec(date@) == Some(t@),
            None => year_ago_spec(date@) is None,
        },
{
    let v = chars_of(date);
    let dq = dash_q_chars();
    let n = byte_len_of(&v);
    if find_chars(&v, &dq).is_some() || n >= 10 {
        let y = match field_of(&v, 0, 4) {
            Some(y) => y,
            None => return None,
        };
        proof {
            lemma_boundary_le_len(v@, 4);
            lemma_byte_len_full(v@);
            assert(tail_ok(v@, 4));
        }
        let rest = match tail_chars(&v, 4) {
            Some(w) => w,
            None => return None,
        };
        let mut out = fmt_int(y as i64 - 1);
        append_chars(&mut out, &rest);
        Some(out)
    } else if n == 4 {
        match parse_i32(&v) {
            Some(y) => Some(fmt_int(y as i64 - 1)),
            None => None,
        }
    } else {
        None
    }
}

/// Row `d` lies within 45 days of the target date `t`.
pub open spec fn near_year_ago(d: Seq<char>, t: Seq<char>) -> bool {
    distance(d, t) <= 45
}

/// `find_yoy_match` panics for these rows and current date.
pub open spec fn yoy_match_panics(dates: Seq<Seq<char>>, current: Seq<char>) -> bool {
    ||| year_ago_panics(current)
    ||| year_ago_spec(current) is Some && exists|i: int|
        0 <= i < dates.len() && #[trigger] distance_panics(dates[i], year_ago_spec(current).unwrap())
}

/// Index of the row closest to one year before `current_date`, among rows
/// within 45 days of it; the first such row on ties.
pub fn find_yoy_match(dates: &Vec<String>, current_date: &str) -> (r: Option<usize>)
    requires
        !yoy_match_panics(dates.deep_view(), current_date@),
    ensures
        match r {
            Some(i) => year_ago_spec(current_date@) matches Some(t) && i < dates.len()
                && near_year_ago(dates@[i as int]@, t) && (forall|j: int|
                0 <= j < dates.len() && near_year_ago(#[trigger] dates@[j]@, t) ==> distance(
                dates@[i as int]@,
                t,
            ) <= distance(dates@[j]@, t)) && (forall|j: int|
                0 <= j < i && near_year_ago(#[trigger] dates@[j]@, t) ==> distance(dates@[i as int]@, t)
                < distance(dates@[j]@, t)),
            None => year_ago_spec(current_date@) matches Some(t) ==> forall|j: int|
                0 <= j < dates.len() ==> !near_year_ago(#[trigger] dates@[j]@, t),
        },
        r is Some ==> (year_ago_spec(current_date@) is Some && distance(
            dates@[r.unwrap() as int]@,
            year_ago_spec(current_date@).unwrap(),
        ) <= 45),
        (r is None && year_ago_spec(current_date@) is Some) ==> (forall|j: int|
            0 <= j < dates.len() ==> distance(
                #[trigger] dates@[j]@,
                year_ago_spec(current_date@).unwrap(),
            ) > 45),
{
    let target = match year_ago(current_date) {
        Some(t) => t,
        None => return None,
    };
    let ghost t = target@;
    assert forall|k: int| 0 <= k < dates.len() implies !distance_panics(#[trigger] dates@[k]@, t) by {
        assert(dates.deep_view().len() == dates.len());
        assert(year_ago_spec(current_date@) == Some(t));
        assert(dates.deep_view()[k] == dates@[k]@);
        assert(!yoy_match_panics(dates.deep_view(), current_date@));
        assert(year_ago_spec(current_date@).unwrap() == t);
        assert(!(exists|i: int| 0 <= i < dates.deep_view().len() && #[trigger] distance_panics(dates.deep_view()[i], t)));
        assert(!distance_panics(dates.deep_view()[k], t));
    }
    let mut best: Option<(usize, u32)> = None;
    let mut i: usize = 0;
    while i < dates.len()
        invariant
            i <= dates.len(),
            year_ago_spec(current_date@) == Some(t),
            t == target@,
            forall|k: int| 0 <= k < dates.len() ==> !distance_panics(#[trigger] dates@[k]@, t),
            match best {
                Some((b, bd)) => b < i && bd == distance(dates@[b as int]@, t) && near_year_ago(
                    dates@[b as int]@,
                    t,
                ) && (forall|j: int|
                    0 <= j < i && near_year_ago(#[trigger] dates@[j]@, t) ==> bd <= distance(
                        dates@[j]@,
                        t,
                    )) && (forall|j: int|
                    0 <= j < b && near_year_ago(#[trigger] dates@[j]@, t) ==> bd < distance(
                        dates@[j]@,
                        t,
                    )),
                None => forall|j: int| 0 <= j < i ==> !near_year_ago(#[trigger] dates@[j]@, t),
            },
        decreases dates.len() - i,
    {
        proof {
            assert(dates.deep_view()[i as int] == dates@[i as int]@);
        }
        let d = date_distance(dates[i].as_str(), target.as_str());
        if d <= 45 {
            match best {
                Some((_, bd)) => {
                    if d < bd {
                        best = Some((i, d));
                    }
                },
                None => {
                    best = Some((i, d));
                },
            }
        }
        i = i + 1;
    }
    match best {
        Some((b, _)) => Some(b),
        None => None,
    }
}

/// `d.starts_with(&year.to_string())`.
pub open spec fn starts_with_year(d: Seq<char>, year: i32) -> bool {
    occurs_at(d, int_decimal(year as int), 0)
}

/// The year read from the first four bytes of a row's date.
pub open spec fn row_year(d: Seq<char>) -> Option<i32> {
    field(d, 0, 4)
}

/// `(row_year - year).abs()` stays within `i32`.
pub open spec fn gap_fits(y: i32, year: i32) -> bool {
    -i32::MAX <= y - year <= i32::MAX
}

/// `find_closest_index` panics: no row starts with the year, and some row's
/// first four bytes cannot be sliced or its year gap overflows.
pub open spec fn closest_year_panics(dates: Seq<Seq<char>>, year: i32) -> bool {
    &&& forall|i: int| 0 <= i < dates.len() ==> !starts_with_year(#[trigger] dates[i], year)
    &&& exists|i: int|
        0 <= i < dates.len() && (!slice_ok(#[trigger] dates[i], 0, 4) || (row_year(dates[i]) matches Some(
            y,
        ) && !gap_fits(y, year)))
}

/// Row `d` has a readable year, at distance `gap` from `year`.
pub open spec fn year_gap(d: Seq<char>, year: i32) -> int {
    abs(row_year(d).unwrap() - year)
}

/// Index of the row for `year`: the first row whose date starts with the
/// year, else the first of the rows whose year is nearest.
pub fn find_closest_index(dates: &Vec<String>, year: i32) -> (r: Option<usize>)
    requires
        !closest_year_panics(dates.deep_view(), year),
    ensures
        r matches Some(i) ==> i < dates.len(),
        (exists|j: int| 0 <= j < dates.len() && starts_with_year(#[trigger] dates@[j]@, year)) ==> (
        r matches Some(i) && starts_with_year(dates@[i as int]@, year) && forall|j: int|
            0 <= j < i ==> !starts_with_year(#[trigger] dates@[j]@, year)),
        !(exists|j: int| 0 <= j < dates.len() && starts_with_year(#[trigger] dates@[j]@, year)) ==> match r {
            Some(i) => row_year(dates@[i as int]@) is Some && (forall|j: int|
                0 <= j < dates.len() && row_year(#[trigger] dates@[j]@) is Some ==> year_gap(
                dates@[i as int]@,
                year,
            ) <= year_gap(dates@[j]@, year)) && (forall|j: int|
                0 <= j < i && row_year(#[trigger] dates@[j]@) is Some ==> year_gap(
                dates@[i as int]@,
                year,
            ) < year_gap(dates@[j]@, year)),
            None => forall|j: int| 0 <= j < dates.len() ==> row_year(#[trigger] dates@[j]@) is None,
        },
{
    let ys = chars_of(fmt_int(year as i64).as_str());
    let mut i: usize = 0;
    while i < dates.len()
        invariant
            i <= dates.len(),
            ys@ == int_decimal(year as int),
            forall|j: int| 0 <= j < i ==> !starts_with_year(#[trigger] dates@[j]@, year),
        decreases dates.len() - i,
    {
        let d = chars_of(dates[i].as_str());
        if ys.len() <= d.len() && occurs_at_exec(&d, &ys, 0) {
            return Some(i);
        }
        i = i + 1;
    }
    proof {
        assert forall|k: int| 0 <= k < dates.len() implies slice_ok(#[trigger] dates@[k]@, 0, 4) && (
        row_year(dates@[k]@) matches Some(y) ==> gap_fits(y, year)) by {
            assert(dates.deep_view()[k] == dates@[k]@);
            assert(!starts_with_year(dates.deep_view()[k], year));
            assert(forall|j: int| 0 <= j < dates.deep_view().len() ==> !starts_with_year(#[trigger] dates.deep_view()[j], year));
        }
    }
    let mut best: Option<(usize, i32)> = None;
    let mut k: usize = 0;
    while k < dates.len()
        invariant
            k <= dates.len(),
            forall|j: int| 0 <= j < dates.len() ==> !starts_with_year(#[trigger] dates@[j]@, year),
            forall|j: int| 0 <= j < dates.len() ==> slice_ok(#[trigger] dates@[j]@, 0, 4) && (row_year(
                dates@[j]@,
            ) matches Some(y) ==> gap_fits(y, year)),
            match best {
                Some((b, bg)) => b < k && row_year(dates@[b as int]@) is Some && bg == year_gap(
                    dates@[b as int]@,
                    year,
                ) && (forall|j: int|
                    0 <= j < k && row_year(#[trigger] dates@[j]@) is Some ==> bg <= year_gap(
                        dates@[j]@,
                        year,
                    )) && (forall|j: int|
                    0 <= j < b && row_year(#[trigger] dates@[j]@) is Some ==> bg < year_gap(
                        dates@[j]@,
                        year,
                    )),
                None => forall|j: int| 0 <= j < k ==> row_year(#[trigger] dates@[j]@) is None,
            },
        decreases dates.len() - k,
    {
        let d = chars_of(dates[k].as_str());
        let y = field_of(&d, 0, 4);
        if let Some(y) = y {
            let g = y - year;
            let g = if g < 0 {
                -g
            } else {
                g
            };
            match best {
                Some((_, bg)) => {
                    if g < bg {
                        best = Some((k, g));
                    }
                },
                None => {
                    best = Some((k, g));
                },
            }
        }
        k = k + 1;
    }
    match best {
        Some((b, _)) => Some(b),
        None => None,
    }
}

/// A date whose first four bytes read as a year from 1001 to 9999 starts
/// with four digit characters.
proof fn lemma_year_prefix(d: Seq<char>)
    requires
        slice_ok(d, 0, 4),
        field(d, 0, 4) matches Some(y) && 1001 <= y <= 9999,
    ensures
        d.len() >= 4,
        forall|i: int| 0 <= i < 4 ==> is_digit(#[trigger] d[i]),
        byte_slice(d, 0, 4) == d.take(4),
        char_index(d, 4) == 4,
{
    lemma_boundary_unique(d, 0, 0);
    lemma_byte_slice_len(d, 0, 4);
    let f = byte_slice(d, 0, 4);
    lemma_chars_le_bytes(f);
    lemma_four_char_year(f);
    lemma_boundary_le_len(d, 4);
    assert(f =~= d.take(4));
    assert forall|i: int| 0 <= i < 4 implies is_digit(#[trigger] d[i]) by {
        assert(f[i] == d[i]);
    }
}

/// Whatever follows the year, `year_ago` leaves untouched.
proof fn lemma_shift_year(d: Seq<char>, p: Seq<char>)
    requires
        d.len() >= 4,
        p.len() == 4,
        forall|i: int| 0 <= i < 4 ==> is_digit(#[trigger] d[i]),
        all_digits(p),
    ensures
        ({
            let t = p + d.skip(4);
            &&& t.len() == d.len()
            &&& byte_len(t) == byte_len(d)
            &&& forall|k: int| is_boundary(t, k) == is_boundary(d, k)
            &&& forall|k: int| #![trigger is_boundary(t, k)] is_boundary(t, k) ==> char_index(t, k) == char_index(d, k)
            &&& forall|k: int| #![trigger char_index(d, k)] is_boundary(d, k) && k >= 4 ==> char_index(d, k) >= 4
            &&& contains_seq(t, dash_q()) == contains_seq(d, dash_q())
            &&& t.take(4) == p
            &&& forall|i: int| 4 <= i < t.len() ==> #[trigger] t[i] == d[i]
        }),
{
    let t = p + d.skip(4);
    assert forall|j: int| 0 <= j <= t.len() implies byte_len(#[trigger] t.take(j)) == byte_len(d.take(j)) by {
        assert forall|i: int| 0 <= i < 4 implies (#[trigger] t[i] as u32) < 0x80 by {
            assert(is_digit(p[i]));
        }
        assert forall|i: int| 0 <= i < 4 implies (#[trigger] d[i] as u32) < 0x80 by {
            assert(is_digit(d[i]));
        }
        if j <= 4 {
            lemma_ascii_prefix(t, 4, j);
            lemma_ascii_prefix(d, 4, j);
        } else {
            lemma_ascii_prefix(t, 4, 4);
            lemma_ascii_prefix(d, 4, 4);
            assert(t.take(j) =~= t.take(4) + d.skip(4).take(j - 4));
            assert(d.take(j) =~= d.take(4) + d.skip(4).take(j - 4));
            lemma_byte_len_concat(t.take(4), d.skip(4).take(j - 4));
            lemma_byte_len_concat(d.take(4), d.skip(4).take(j - 4));
        }
    }
    assert(t.take(t.len() as int) =~= t);
    assert(d.take(d.len() as int) =~= d);
    assert forall|k: int| is_boundary(t, k) == is_boundary(d, k) by {
        lemma_same_boundaries(t, d, k);
    }
    assert forall|k: int| #![trigger is_boundary(t, k)] is_boundary(t, k) implies char_index(t, k) == char_index(d, k) by {
        lemma_same_boundaries(t, d, k);
    }
    assert forall|k: int| #![trigger char_index(d, k)] is_boundary(d, k) && k >= 4 implies char_index(d, k) >= 4 by {
        let c = char_index(d, k);
        assert(boundary_at(d, k, c));
        if c < 4 {
            assert forall|i: int| 0 <= i < 4 implies (#[trigger] d[i] as u32) < 0x80 by {
                assert(is_digit(d[i]));
            }
            lemma_ascii_prefix(d, 4, c);
        }
    }
    assert(t.take(4) =~= p);
    assert forall|i: int| 4 <= i < t.len() implies #[trigger] t[i] == d[i] by {}
    assert(contains_seq(t, dash_q()) == contains_seq(d, dash_q())) by {
        if contains_seq(t, dash_q()) {
            let i = choose|i: int| occurs_at(t, dash_q(), i);
            assert(t.subrange(i, i + 2)[0] == '-');
            if i < 4 {
                assert(is_digit(p[i]));
            }
            assert(d.subrange(i, i + 2) =~= t.subrange(i, i + 2));
            assert(occurs_at(d, dash_q(), i));
        }
        if contains_seq(d, dash_q()) {
            let i = choose|i: int| occurs_at(d, dash_q(), i);
            assert(d.subrange(i, i + 2)[0] == '-');
            if i < 4 {
                assert(is_digit(d[i]));
            }
            assert(d.subrange(i, i + 2) =~= t.subrange(i, i + 2));
            assert(occurs_at(t, dash_q(), i));
        }
    }
}

/// Slices past the year read the same in both texts.
proof fn lemma_shifted_slice(t: Seq<char>, d: Seq<char>, from: int, to: int)
    requires
        t.len() == d.len(),
        from >= 4,
        forall|k: int| is_boundary(t, k) == is_boundary(d, k),
        forall|k: int| #![trigger is_boundary(t, k)] is_boundary(t, k) ==> char_index(t, k) == char_index(d, k),
        forall|k: int| #![trigger char_index(d, k)] is_boundary(d, k) && k >= 4 ==> char_index(d, k) >= 4,
        forall|i: int| 4 <= i < t.len() ==> #[trigger] t[i] == d[i],
        slice_ok(d, from, to),
    ensures
        slice_ok(t, from, to),
        byte_slice(t, from, to) == byte_slice(d, from, to),
{
    assert(is_boundary(t, from));
    assert(is_boundary(t, to));
    lemma_boundary_le_len(d, to);
    lemma_byte_slice_len(d, from, to);
    let a = char_index(d, from);
    let b = char_index(d, to);
    assert(a >= 4);
    assert(t.subrange(a, b) =~= d.subrange(a, b));
}

/// `year_ago` moves a date back by exactly one year: for a date whose year
/// is written with four digits (1001 to 9999), the result is again a date,
/// 365 days earlier.
#[verifier::spinoff_prover]
#[verifier::rlimit(40)]
pub proof fn lemma_year_ago_one_year(d: Seq<char>)
    requires
        !date_panics(d),
        date_days(d) matches Some(x) && fits_i32(x - 365),
        slice_ok(d, 0, 4),
        field(d, 0, 4) matches Some(y) && 1001 <= y <= 9999,
    ensures
        !year_ago_panics(d),
        year_ago_spec(d) matches Some(t) && !date_panics(t) && date_days(t) == Some(
            date_days(d).unwrap() - 365,
        ) && !distance_panics(t, d) && distance(t, d) == 365,
{
    let y = field(d, 0, 4).unwrap();
    lemma_year_prefix(d);
    let p = int_decimal(y - 1);
    lemma_four_digits((y - 1) as nat);
    lemma_parse_int_decimal((y - 1) as i32);
    lemma_byte_len_full(d);
    lemma_boundary_le_len(d, 4);
    assert(byte_tail(d, 4) =~= d.skip(4));
    let t = p + d.skip(4);
    lemma_shift_year(d, p);
    lemma_boundary_unique(t, 0, 0);
    lemma_boundary_unique(d, 0, 0);
    assert(is_boundary(t, 4));
    assert(byte_slice(t, 0, 4) =~= p);
    assert(field(t, 0, 4) == Some((y - 1) as i32));
    if contains_seq(d, dash_q()) {
        lemma_byte_len_full(t);
        lemma_shifted_slice(t, d, 6, byte_len(d) as int);
        assert(year_ago_spec(d) == Some(t));
    } else if byte_len(d) >= 10 {
        lemma_shifted_slice(t, d, 5, 7);
        lemma_shifted_slice(t, d, 8, 10);
        assert(year_ago_spec(d) == Some(t));
    } else {
        assert(byte_len(d) == 4);
        lemma_boundary_unique(d, 4, d.len() as int);
        assert(d.len() == 4);
        assert(d.skip(4) =~= Seq::<char>::empty());
        assert(t =~= p);
        assert(byte_slice(d, 0, 4) =~= d);
        assert(year_ago_spec(d) == Some(p));
    }
}

/// A row within 45 days of the date one year before `current` lies between
/// 320 and 410 days before `current`: the year-over-year match is about a
/// year old, never a row from another season.
pub proof fn lemma_yoy_window(current: Seq<char>, row: Seq<char>)
    requires
        !date_panics(current),
        date_days(current) matches Some(x) && fits_i32(x - 365),
        slice_ok(current, 0, 4),
        field(current, 0, 4) matches Some(y) && 1001 <= y <= 9999,
        date_days(row) is Some,
        year_ago_spec(current) is Some,
        distance(row, year_ago_spec(current).unwrap()) <= 45,
    ensures
        320 <= date_days(current).unwrap() - date_days(row).unwrap() <= 410,
{
    lemma_year_ago_one_year(current);
}

/// The distance between two dates does not depend on their order.
pub proof fn lemma_distance_symmetric(a: Seq<char>, b: Seq<char>)
    ensures
        distance(a, b) == distance(b, a),
{
}

/// A date is at distance zero from itself.
pub proof fn lemma_distance_self(a: Seq<char>)
    requires
        !date_panics(a),
        date_days(a) is Some,
    ensures
        !distance_panics(a, a),
        distance(a, a) == 0,
{
}

/// Whether reading the date `v` panics.
fn date_panics_of(v: &Vec<char>) -> (b: bool)
    ensures
        b == date_panics(v@),
{
    let dq = dash_q_chars();
    let n = byte_len_of(v);
    if find_chars(v, &dq).is_some() {
        let y = match slice_chars(v, 0, 4) {
            Some(w) => parse_i32(&w),
            None => return true,
        };
        let y = match y {
            Some(y) => y,
            None => return false,
        };
        let q = match tail_chars(v, 6) {
            Some(w) => parse_i32(&w),
            None => return true,
        };
        match q {
            Some(q) => {
                let q1 = q as i64 - 1;
                let t = q1 * 91;
                let total = y as i64 * 365 + t;
                !(-2147483648 <= q1 && q1 <= 2147483647 && -2147483648 <= t && t <= 2147483647
                    && -2147483648 <= total && total <= 2147483647)
            },
            None => false,
        }
    } else if n >= 10 {
        let y = match slice_chars(v, 0, 4) {
            Some(w) => parse_i32(&w),
            None => return true,
        };
        if y.is_none() {
            return false;
        }
        let m = match slice_chars(v, 5, 7) {
            Some(w) => parse_i32(&w),
            None => return true,
        };
        if m.is_none() {
            return false;
        }
        slice_chars(v, 8, 10).is_none()
    } else {
        false
    }
}

/// Whether `date_distance(a, b)` panics.
pub fn distance_panics_of(a: &str, b: &str) -> (p: bool)
    ensures
        p == distance_panics(a@, b@),
{
    let va = chars_of(a);
    let vb = chars_of(b);
    if date_panics_of(&va) || date_panics_of(&vb) {
        return true;
    }
    match (date_days_of(&va), date_days_of(&vb)) {
        (Some(x), Some(y)) => {
            let d = x - y;
            !(-2147483648 <= d && d <= 2147483647)
        },
        _ => false,
    }
}

/// Whether `year_ago(date)` panics.
pub fn year_ago_panics_of(date: &str) -> (p: bool)
    ensures
        p == year_ago_panics(date@),
{
    let v = chars_of(date);
    let dq = dash_q_chars();
    let n = byte_len_of(&v);
    (find_chars(&v, &dq).is_some() || n >= 10) && slice_chars(&v, 0, 4).is_none()
}

/// Whether `find_yoy_match(dates, current_date)` panics.
pub fn yoy_match_panics_of(dates: &Vec<String>, current_date: &str) -> (p: bool)
    ensures
        p == yoy_match_panics(dates.deep_view(), current_date@),
{
    if year_ago_panics_of(current_date) {
        return true;
    }
    let target = match year_ago(current_date) {
        Some(t) => t,
        None => return false,
    };
    let mut i: usize = 0;
    while i < dates.len()
        invariant
            i <= dates.len(),
            year_ago_spec(current_date@) == Some(target@),
            forall|k: int| 0 <= k < i ==> !distance_panics(#[trigger] dates@[k]@, target@),
        decreases dates.len() - i,
    {
        if distance_panics_of(dates[i].as_str(), target.as_str()) {
            proof {
                assert(dates.deep_view()[i as int] == dates@[i as int]@);
                assert(year_ago_spec(current_date@).unwrap() == target@);
                assert(distance_panics(
                    dates.deep_view()[i as int],
                    year_ago_spec(current_date@).unwrap(),
                ));
                assert(dates.deep_view().len() == dates.len());
            }
            return true;
        }
        i = i + 1;
    }
    proof {
        assert forall|k: int| 0 <= k < dates.deep_view().len() implies !distance_panics(
            #[trigger] dates.deep_view()[k],
            target@,
        ) by {
            assert(dates.deep_view()[k] == dates@[k]@);
        }
    }
    false
}

/// Whether `find_closest_index(dates, year)` panics.
pub fn closest_year_panics_of(dates: &Vec<String>, year: i32) -> (p: bool)
    ensures
        p == closest_year_panics(dates.deep_view(), year),
{
    let ys = chars_of(fmt_int(year as i64).as_str());
    let mut i: usize = 0;
    while i < dates.len()
        invariant
            i <= dates.len(),
            ys@ == int_decimal(year as int),
            forall|j: int| 0 <= j < i ==> !starts_with_year(#[trigger] dates@[j]@, year),
        decreases dates.len() - i,
    {
        let d = chars_of(dates[i].as_str());
        if ys.len() <= d.len() && occurs_at_exec(&d, &ys, 0) {
            proof {
                assert(dates.deep_view()[i as int] == dates@[i as int]@);
                assert(starts_with_year(dates.deep_view()[i as int], year));
            }
            return false;
        }
        i = i + 1;
    }
    let mut k: usize = 0;
    while k < dates.len()
        invariant
            k <= dates.len(),
            forall|j: int| 0 <= j < dates.len() ==> !starts_with_year(#[trigger] dates@[j]@, year),
            forall|j: int| 0 <= j < k ==> slice_ok(#[trigger] dates@[j]@, 0, 4) && (row_year(
                dates@[j]@,
            ) matches Some(y) ==> gap_fits(y, year)),
        decreases dates.len() - k,
    {
        let d = chars_of(dates[k].as_str());
        match slice_chars(&d, 0, 4) {
            None => {
                proof {
                    assert(dates.deep_view()[k as int] == dates@[k as int]@);
                    assert(!slice_ok(dates.deep_view()[k as int], 0, 4));
                }
                return true;
            },
            Some(w) => {
                if let Some(y) = parse_i32(&w) {
                    let g = y as i64 - year as i64;
                    if !(-2147483647 <= g && g <= 2147483647) {
                        proof {
                            assert(dates.deep_view()[k as int] == dates@[k as int]@);
                            assert(row_year(dates.deep_view()[k as int]) == Some(y));
                        }
                        return true;
                    }
                }
            },
        }
        k = k + 1;
    }
    proof {
        assert forall|j: int| 0 <= j < dates.deep_view().len() implies !starts_with_year(
            #[trigger] dates.deep_view()[j],
            year,
        ) && slice_ok(dates.deep_view()[j], 0, 4) && (row_year(dates.deep_view()[j]) matches Some(
            y,
        ) ==> gap_fits(y, year)) by {
            assert(dates.deep_view()[j] == dates@[j]@);
        }
    }
    false
}

/// `date[..4].parse::<i32>()`: the year a date string starts with.
pub fn leading_year(date: &str) -> (r: Option<i32>)
    requires
        slice_ok(date@, 0, 4),
    ensures
        r == row_year(date@),
{
    let v = chars_of(date);
    field_of(&v, 0, 4)
}

/// Whether `date[..4]` panics.
pub fn leading_year_panics(date: &str) -> (p: bool)
    ensures
        p == !slice_ok(date@, 0, 4),
{
    slice_chars(&chars_of(date), 0, 4).is_none()
}

/// `format!("{year}%")`: the SQL `LIKE` pattern for dates in a year.
pub fn year_pattern(year: &str) -> (p: String)
    ensures
        p@ == year@ + seq!['%'],
{
    let mut p = String::from_str(year);
    crate::text::push_char(&mut p, '%');
    p
}

/// The years tried when a year has no data, in order: one later, one
/// earlier, two later, two earlier.
pub open spec fn nearby_offsets() -> Seq<int> {
    seq![1, -1, 2, -2]
}

/// `LIKE` patterns for the years near `year`, nearest first; the year is
/// read from the first four bytes, as 0 when they are not a number.
pub fn nearby_year_patterns(year: &str) -> (ps: Vec<String>)
    requires
        slice_ok(year@, 0, 4),
    ensures
        ps@.len() == 4,
        forall|k: int| 0 <= k < 4 ==> (#[trigger] ps@[k])@ == int_decimal(
            (match row_year(year@) {
                Some(y) => y as int,
                None => 0,
            }) + nearby_offsets()[k],
        ) + seq!['%'],
{
    let y = match leading_year(year) {
        Some(y) => y,
        None => 0,
    };
    proof {
        lemma_short_field(year@, 0, 4);
    }
    let mut ps: Vec<String> = Vec::new();
    let mut k: usize = 0;
    while k < 4
        invariant
            k <= 4,
            ps@.len() == k,
            -10000 < y < 10000,
            y == (match row_year(year@) {
                Some(y) => y as int,
                None => 0,
            }),
            forall|j: int| 0 <= j < k ==> (#[trigger] ps@[j])@ == int_decimal(
                y + nearby_offsets()[j],
            ) + seq!['%'],
        decreases 4 - k,
    {
        let offset: i32 = if k == 0 {
            1
        } else if k == 1 {
            -1
        } else if k == 2 {
            2
        } else {
            -2
        };
        assert(offset == nearby_offsets()[k as int]);
        let mut p = fmt_int((y + offset) as i64);
        crate::text::push_char(&mut p, '%');
        ps.push(p);
        k = k + 1;
    }
    ps
}

} // verus!
