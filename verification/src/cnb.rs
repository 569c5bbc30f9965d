//! Reading the CNB plain-text files: rate histories and the daily
//! exchange-rate table.
use vstd::prelude::*;
use vstd::string::*;

use crate::listings::{lowercase, to_lowercase};
use crate::text::{
    append_chars, byte_len, byte_len_of, byte_slice, chars_of, lines, lines_exec, replace_char,
    replace_char_exec, slice_chars, slice_ok, split_on, split_on_exec, string_of, trim, trim_chars,
    views,
};

verus! {

/// One observation of a rate history: its ISO date and its value with a
/// decimal point.
pub struct RateObservation {
    pub date: String,
    pub value_text: String,
}

/// The date and value fields of a history line `YYYYMMDD|value`.
pub open spec fn rate_fields(l: Seq<char>) -> (Seq<char>, Seq<char>) {
    (trim(split_on(l, '|')[0]), trim(split_on(l, '|')[1]))
}

/// Reading a history line panics: its date has eight bytes but cannot be
/// cut at bytes four and six.
pub open spec fn rate_line_panics(l: Seq<char>) -> bool {
    let d = rate_fields(l).0;
    &&& split_on(l, '|').len() >= 2
    &&& byte_len(d) == 8
    &&& !(slice_ok(d, 0, 4) && slice_ok(d, 4, 6) && slice_ok(d, 6, 8))
}

/// The observation on a history line: lines with fewer than two fields or
/// a date that is not eight bytes long hold none. The date is rewritten
/// from `YYYYMMDD` to `YYYY-MM-DD` and the decimal comma becomes a point.
pub open spec fn rate_line(l: Seq<char>) -> Option<(Seq<char>, Seq<char>)> {
    let (d, v) = rate_fields(l);
    if split_on(l, '|').len() < 2 || byte_len(d) != 8 {
        None
    } else {
        Some(
            (
                byte_slice(d, 0, 4) + seq!['-'] + byte_slice(d, 4, 6) + seq!['-'] + byte_slice(
                    d,
                    6,
                    8,
                ),
                replace_char(v, ',', '.'),
            ),
        )
    }
}

/// The observations of a history file, in order, after its header line.
pub open spec fn rate_history_spec(ls: Seq<Seq<char>>) -> Seq<(Seq<char>, Seq<char>)>
    decreases ls.len(),
{
    if ls.len() <= 1 {
        Seq::empty()
    } else {
        let prev = rate_history_spec(ls.drop_last());
        match rate_line(ls.last()) {
            Some(o) => prev.push(o),
            None => prev,
        }
    }
}

/// Reading a history file panics on one of its lines after the header.
pub open spec fn rate_history_panics(text: Seq<char>) -> bool {
    exists|i: int| 1 <= i < lines(text).len() && rate_line_panics(#[trigger] lines(text)[i])
}

pub open spec fn observation_views(v: Seq<RateObservation>) -> Seq<(Seq<char>, Seq<char>)> {
    v.map_values(|o: RateObservation| (o.date@, o.value_text@))
}

fn rate_line_of(l: &Vec<char>) -> (r: Option<RateObservation>)
    requires
        !rate_line_panics(l@),
    ensures
        match r {
            Some(o) => rate_line(l@) == Some((o.date@, o.value_text@)),
            None => rate_line(l@) is None,
        },
{
    let parts = split_on_exec(l, '|');
    if parts.len() < 2 {
        return None;
    }
    proof {
        assert(views(parts@)[0] == parts@[0]@);
        assert(views(parts@)[1] == parts@[1]@);
    }
    let d = trim_chars(&parts[0]);
    let v = trim_chars(&parts[1]);
    if byte_len_of(&d) != 8 {
        return None;
    }
    let y = match slice_chars(&d, 0, 4) {
        Some(x) => x,
        None => return None,
    };
    let m = match slice_chars(&d, 4, 6) {
        Some(x) => x,
        None => return None,
    };
    let dd = match slice_chars(&d, 6, 8) {
        Some(x) => x,
        None => return None,
    };
    let mut date = string_of(&y);
    date.append("-");
    append_chars(&mut date, &m);
    date.append("-");
    append_chars(&mut date, &dd);
    proof {
        reveal_strlit("-");
    }
    let value_text = string_of(&replace_char_exec(&v, ',', '.'));
    Some(RateObservation { date, value_text })
}

fn rate_line_panics_of(l: &Vec<char>) -> (b: bool)
    ensures
        b == rate_line_panics(l@),
{
    let parts = split_on_exec(l, '|');
    if parts.len() < 2 {
        return false;
    }
    proof {
        assert(views(parts@)[0] == parts@[0]@);
    }
    let d = trim_chars(&parts[0]);
    byte_len_of(&d) == 8 && (slice_chars(&d, 0, 4).is_none() || slice_chars(&d, 4, 6).is_none()
        || slice_chars(&d, 6, 8).is_none())
}

/// Whether `rate_history(text)` panics.
pub fn rate_history_panics_of(text: &str) -> (b: bool)
    ensures
        b == rate_history_panics(text@),
{
    let ls = lines_exec(&chars_of(text));
    let ghost lv = lines(text@);
    let mut i: usize = 1;
    while i < ls.len()
        invariant
            1 <= i,
            views(ls@) == lv,
            lv == lines(text@),
            forall|k: int| 1 <= k < i && k < lv.len() ==> !rate_line_panics(#[trigger] lv[k]),
        decreases ls.len() - i,
    {
        proof {
            assert(views(ls@)[i as int] == ls@[i as int]@);
        }
        if rate_line_panics_of(&ls[i]) {
            return true;
        }
        i = i + 1;
    }
    false
}

/// Parse a CNB rate history file:
///
/// ```text
/// PLATNA_OD|CNB_REPO_SAZBA_V_%
/// 19951208|11,30
/// ```
pub fn rate_history(text: &str) -> (r: Vec<RateObservation>)
    requires
        !rate_history_panics(text@),
    ensures
        observation_views(r@) == rate_history_spec(lines(text@)),
{
    let ls = lines_exec(&chars_of(text));
    let ghost lv = lines(text@);
    let mut out: Vec<RateObservation> = Vec::new();
    let mut i: usize = 1;
    if ls.len() == 0 {
        return out;
    }
    assert(lv.take(1).len() <= 1);
    while i < ls.len()
        invariant
            1 <= i <= ls.len(),
            views(ls@) == lv,
            lv == lines(text@),
            !rate_history_panics(text@),
            observation_views(out@) == rate_history_spec(lv.take(i as int)),
        decreases ls.len() - i,
    {
        proof {
            assert(views(ls@)[i as int] == ls@[i as int]@);
            assert(!rate_line_panics(lv[i as int]));
            assert(lv.take(i + 1).drop_last() =~= lv.take(i as int));
            assert(lv.take(i + 1).last() == lv[i as int]);
        }
        match rate_line_of(&ls[i]) {
            Some(o) => {
                out.push(o);
                assert(observation_views(out@) =~= rate_history_spec(lv.take(i as int)).push(
                    (out@.last().date@, out@.last().value_text@),
                ));
            },
            None => {},
        }
        i = i + 1;
    }
    assert(lv.take(ls.len() as int) =~= lv);
    out
}

/// One row of the exchange-rate table: the indicator name and the amount
/// and rate as written (the rate with a decimal point).
pub struct FxRow {
    pub indicator: String,
    pub amount_text: String,
    pub rate_text: String,
}

/// The exchange-rate table: the ISO date of its header, when the header
/// starts with a `DD.MM.YYYY` date, and its rows.
pub struct FxTable {
    pub date: Option<String>,
    pub rows: Vec<FxRow>,
}

/// The ISO date in a header line such as `06.03.2026 #046`.
pub open spec fn fx_date(header: Seq<char>) -> Option<Seq<char>> {
    let parts = split_on(split_on(header, ' ')[0], '.');
    if parts.len() == 3 {
        Some(parts[2] + seq!['-'] + parts[1] + seq!['-'] + parts[0])
    } else {
        None
    }
}

/// A table row `country|currency|amount|code|rate`: lines with fewer than
/// five fields hold none.
pub open spec fn fx_row(l: Seq<char>) -> Option<(Seq<char>, Seq<char>, Seq<char>)> {
    let p = split_on(l, '|');
    if p.len() < 5 {
        None
    } else {
        Some((seq!['f', 'x', '_'] + lowercase(p[3]), p[2], replace_char(p[4], ',', '.')))
    }
}

/// The rows of the table, after the date header and the column header.
pub open spec fn fx_rows(ls: Seq<Seq<char>>) -> Seq<(Seq<char>, Seq<char>, Seq<char>)>
    decreases ls.len(),
{
    if ls.len() <= 2 {
        Seq::empty()
    } else {
        let prev = fx_rows(ls.drop_last());
        match fx_row(ls.last()) {
            Some(r) => prev.push(r),
            None => prev,
        }
    }
}

pub open spec fn fx_row_views(v: Seq<FxRow>) -> Seq<(Seq<char>, Seq<char>, Seq<char>)> {
    v.map_values(|r: FxRow| (r.indicator@, r.amount_text@, r.rate_text@))
}

fn fx_row_of(l: &Vec<char>) -> (r: Option<FxRow>)
    ensures
        match r {
            Some(x) => fx_row(l@) == Some((x.indicator@, x.amount_text@, x.rate_text@)),
            None => fx_row(l@) is None,
        },
{
    let p = split_on_exec(l, '|');
    if p.len() < 5 {
        return None;
    }
    proof {
        assert(views(p@)[2] == p@[2]@);
        assert(views(p@)[3] == p@[3]@);
        assert(views(p@)[4] == p@[4]@);
    }
    let mut indicator = String::from_str("fx_");
    let code = string_of(&p[3]);
    indicator.append(to_lowercase(code.as_str()).as_str());
    proof {
        reveal_strlit("fx_");
        assert(seq!['f', 'x', '_'] =~= "fx_"@);
    }
    Some(
        FxRow {
            indicator,
            amount_text: string_of(&p[2]),
            rate_text: string_of(&replace_char_exec(&p[4], ',', '.')),
        },
    )
}

fn fx_date_of(header: &Vec<char>) -> (r: Option<String>)
    ensures
        match r {
            Some(d) => fx_date(header@) == Some(d@),
            None => fx_date(header@) is None,
        },
{
    let words = split_on_exec(header, ' ');
    proof {
        crate::text::lemma_split_on_nonempty(header@, ' ');
        assert(views(words@)[0] == words@[0]@);
    }
    let parts = split_on_exec(&words[0], '.');
    if parts.len() != 3 {
        return None;
    }
    proof {
        assert(views(parts@)[0] == parts@[0]@);
        assert(views(parts@)[1] == parts@[1]@);
        assert(views(parts@)[2] == parts@[2]@);
        reveal_strlit("-");
    }
    let mut d = string_of(&parts[2]);
    d.append("-");
    append_chars(&mut d, &parts[1]);
    d.append("-");
    append_chars(&mut d, &parts[0]);
    Some(d)
}

/// Parse the daily exchange-rate file:
///
/// ```text
/// 06.03.2026 #046
/// země|měna|množství|kód|kurz
/// Austrálie|dolar|1|AUD|14,788
/// ```
///
/// `None` for an empty file.
pub fn fx_table(text: &str) -> (r: Option<FxTable>)
    ensures
        match r {
            Some(t) => {
                &&& lines(text@).len() > 0
                &&& match t.date {
                    Some(d) => fx_date(lines(text@)[0]) == Some(d@),
                    None => fx_date(lines(text@)[0]) is None,
                }
                &&& fx_row_views(t.rows@) == fx_rows(lines(text@))
            },
            None => lines(text@).len() == 0,
        },
{
    let ls = lines_exec(&chars_of(text));
    let ghost lv = lines(text@);
    if ls.len() == 0 {
        return None;
    }
    proof {
        assert(views(ls@)[0] == ls@[0]@);
    }
    let date = fx_date_of(&ls[0]);
    let mut rows: Vec<FxRow> = Vec::new();
    let mut i: usize = 2;
    if ls.len() < 2 {
        proof {
            assert(fx_rows(lv) == Seq::<(Seq<char>, Seq<char>, Seq<char>)>::empty());
        }
        return Some(FxTable { date, rows });
    }
    assert(fx_row_views(rows@) =~= fx_rows(lv.take(2)));
    while i < ls.len()
        invariant
            2 <= i <= ls.len(),
            views(ls@) == lv,
            fx_row_views(rows@) == fx_rows(lv.take(i as int)),
        decreases ls.len() - i,
    {
        proof {
            assert(views(ls@)[i as int] == ls@[i as int]@);
            assert(lv.take(i + 1).drop_last() =~= lv.take(i as int));
            assert(lv.take(i + 1).last() == lv[i as int]);
        }
        match fx_row_of(&ls[i]) {
            Some(x) => {
                rows.push(x);
                assert(fx_row_views(rows@) =~= fx_rows(lv.take(i as int)).push(
                    (rows@.last().indicator@, rows@.last().amount_text@, rows@.last().rate_text@),
                ));
            },
            None => {},
        }
        i = i + 1;
    }
    assert(lv.take(ls.len() as int) =~= lv);
    Some(FxTable { date, rows })
}

} // verus!
