//! The shape of the forecast charts: year labels, a solid historical series
//! and a dashed projection that starts at the last historical point.
use vstd::prelude::*;

use crate::numbers::{fmt_int, int_decimal};

verus! {

/// How many years `1..=forecast_years as i32` visits: none when the count
/// does not fit an `i32` and the cast turns it negative.
pub open spec fn forecast_count(n: u32) -> int {
    if n <= i32::MAX {
        n as int
    } else {
        0
    }
}

/// The `k`-th forecast year after `last_year`.
pub open spec fn target_year(last_year: i32, k: int) -> int {
    last_year + k + 1
}

/// Forecast years after the last historical one: `last_year + 1` up to
/// `last_year + forecast_years`.
pub fn forecast_years_after(last_year: i32, forecast_years: u32) -> (v: Vec<i32>)
    requires
        last_year + forecast_count(forecast_years) <= i32::MAX,
    ensures
        v@.len() == forecast_count(forecast_years),
        forall|k: int| 0 <= k < v@.len() ==> #[trigger] v@[k] == target_year(last_year, k),
{
    let count: i32 = if forecast_years <= 2147483647 {
        forecast_years as i32
    } else {
        0
    };
    let mut v: Vec<i32> = Vec::new();
    let mut i: i32 = 0;
    while i < count
        invariant
            0 <= count,
            count == forecast_count(forecast_years),
            last_year + count <= i32::MAX,
            0 <= i <= count,
            v@.len() == i,
            forall|k: int| 0 <= k < v@.len() ==> #[trigger] v@[k] == target_year(last_year, k),
        decreases count - i,
    {
        v.push(last_year + (i + 1));
        i = i + 1;
    }
    v
}

/// Chart labels: each historical year, then each forecast year.
pub fn forecast_labels(years: &Vec<i32>, forecast_years: u32) -> (labels: Vec<String>)
    requires
        years.len() > 0,
        years@.last() + forecast_count(forecast_years) <= i32::MAX,
    ensures
        labels@.len() == years.len() + forecast_count(forecast_years),
        forall|i: int| 0 <= i < years.len() ==> (#[trigger] labels@[i])@ == int_decimal(years@[i] as int),
        forall|k: int|
            0 <= k < forecast_count(forecast_years) ==> (#[trigger] labels@[years.len() + k])@
                == int_decimal(target_year(years@.last(), k)),
{
    let mut labels: Vec<String> = Vec::new();
    let mut i: usize = 0;
    while i < years.len()
        invariant
            i <= years.len(),
            labels@.len() == i,
            forall|j: int| 0 <= j < i ==> (#[trigger] labels@[j])@ == int_decimal(years@[j] as int),
        decreases years.len() - i,
    {
        labels.push(fmt_int(years[i] as i64));
        i = i + 1;
    }
    let last = years[years.len() - 1];
    let after = forecast_years_after(last, forecast_years);
    let mut k: usize = 0;
    while k < after.len()
        invariant
            k <= after.len(),
            labels@.len() == years.len() + k,
            after@.len() == forecast_count(forecast_years),
            last == years@.last(),
            forall|m: int| 0 <= m < after@.len() ==> #[trigger] after@[m] == target_year(last, m),
            forall|j: int| 0 <= j < years.len() ==> (#[trigger] labels@[j])@ == int_decimal(years@[j] as int),
            forall|m: int|
                0 <= m < k ==> (#[trigger] labels@[years.len() + m])@ == int_decimal(
                    target_year(last, m),
                ),
        decreases after.len() - k,
    {
        labels.push(fmt_int(after[k] as i64));
        k = k + 1;
    }
    labels
}

/// The historical series: each value, then empty points up to `total_len`.
pub open spec fn history_spec<T>(values: Seq<T>, total_len: int) -> Seq<Option<T>> {
    Seq::new(total_len as nat, |i: int| if i < values.len() { Some(values[i]) } else { None })
}

/// The projection: empty under all but the last historical point, which it
/// repeats, then the projected values.
pub open spec fn projection_spec<T>(last: T, projected: Seq<T>, hist_len: int) -> Seq<Option<T>> {
    Seq::new(
        (hist_len + projected.len()) as nat,
        |i: int|
            if i < hist_len - 1 {
                None
            } else if i == hist_len - 1 {
                Some(last)
            } else {
                Some(projected[i - hist_len])
            },
    )
}

/// Historical chart series padded with empty points to `total_len`.
pub fn history_series<T: Copy>(values: &Vec<T>, total_len: usize) -> (s: Vec<Option<T>>)
    requires
        values.len() <= total_len,
    ensures
        s@ == history_spec(values@, total_len as int),
{
    let mut s: Vec<Option<T>> = Vec::new();
    let mut i: usize = 0;
    while i < total_len
        invariant
            values.len() <= total_len,
            i <= total_len,
            s@ == history_spec(values@, i as int),
        decreases total_len - i,
    {
        if i < values.len() {
            s.push(Some(values[i]));
        } else {
            s.push(None);
        }
        i = i + 1;
        assert(s@ =~= history_spec(values@, i as int));
    }
    s
}

/// Projection chart series: it starts at the last historical point `last`
/// and continues with the projected values.
pub fn projection_series<T: Copy>(last: T, projected: &Vec<T>, hist_len: usize) -> (s: Vec<
    Option<T>,
>)
    requires
        hist_len >= 1,
        hist_len + projected.len() <= usize::MAX,
    ensures
        s@ == projection_spec(last, projected@, hist_len as int),
{
    let mut s: Vec<Option<T>> = Vec::new();
    let mut i: usize = 0;
    while i < hist_len - 1
        invariant
            hist_len >= 1,
            i <= hist_len - 1,
            s@.len() == i,
            forall|j: int| 0 <= j < i ==> #[trigger] s@[j] == None::<T>,
        decreases hist_len - 1 - i,
    {
        s.push(None);
        i = i + 1;
    }
    s.push(Some(last));
    let mut k: usize = 0;
    while k < projected.len()
        invariant
            hist_len >= 1,
            hist_len + projected.len() <= usize::MAX,
            k <= projected.len(),
            s@.len() == hist_len + k,
            forall|j: int| 0 <= j < hist_len - 1 ==> #[trigger] s@[j] == None::<T>,
            s@[hist_len - 1] == Some(last),
            forall|j: int| 0 <= j < k ==> #[trigger] s@[hist_len + j] == Some(projected@[j]),
        decreases projected.len() - k,
    {
        s.push(Some(projected[k]));
        k = k + 1;
    }
    assert(s@ =~= projection_spec(last, projected@, hist_len as int)) by {
        assert forall|i: int| 0 <= i < s@.len() implies #[trigger] s@[i] == projection_spec(
            last,
            projected@,
            hist_len as int,
        )[i] by {
            if i >= hist_len {
                assert(s@[hist_len + (i - hist_len)] == Some(projected@[i - hist_len]));
            }
        }
    }
    s
}

/// The projection joins the historical line: both series hold the last
/// historical value at the last historical year, and both span the labels.
pub proof fn lemma_projection_continues_history<T>(values: Seq<T>, projected: Seq<T>)
    requires
        values.len() > 0,
    ensures
        ({
            let total = (values.len() + projected.len()) as int;
            let h = history_spec(values, total);
            let p = projection_spec(values.last(), projected, values.len() as int);
            &&& h.len() == p.len()
            &&& h[values.len() - 1] == p[values.len() - 1]
            &&& h[values.len() - 1] == Some(values.last())
            &&& forall|i: int| values.len() <= i < total ==> #[trigger] h[i] == None::<T>
            &&& forall|i: int| 0 <= i < values.len() - 1 ==> #[trigger] p[i] == None::<T>
        }),
{
}

} // verus!
