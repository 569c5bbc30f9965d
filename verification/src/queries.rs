//! SQL text of the range queries over the time series and affordability
//! tables.
use vstd::prelude::*;
use vstd::string::*;

verus! {

pub const DATE_FROM_CLAUSE: &'static str = " AND date >= ?";

pub const DATE_TO_CLAUSE: &'static str = " AND date <= ?";

pub const ORDER_BY_DATE: &'static str = " ORDER BY date ASC";

/// A query restricted to an optional date range and ordered by date.
pub open spec fn ranged_sql_spec(base: Seq<char>, date_from: bool, date_to: bool) -> Seq<char> {
    base + (if date_from {
        DATE_FROM_CLAUSE@
    } else {
        Seq::empty()
    }) + (if date_to {
        DATE_TO_CLAUSE@
    } else {
        Seq::empty()
    }) + ORDER_BY_DATE@
}

/// The query `base`, with a lower and an upper date bound where asked for,
/// ordered by date. The bounds are bound as parameters in that order.
pub fn ranged_sql(base: &str, date_from: bool, date_to: bool) -> (sql: String)
    ensures
        sql@ == ranged_sql_spec(base@, date_from, date_to),
{
    let mut sql = String::from_str(base);
    if date_from {
        sql.append(DATE_FROM_CLAUSE);
    }
    if date_to {
        sql.append(DATE_TO_CLAUSE);
    }
    sql.append(ORDER_BY_DATE);
    proof {
        assert(sql@ =~= ranged_sql_spec(base@, date_from, date_to));
    }
    sql
}

} // verus!
