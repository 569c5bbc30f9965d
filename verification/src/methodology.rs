//! Methodology transparency layer — inline disclosure notes for key metrics.
//!
//! Each [`MethodologyNote`] renders as a `<details class="mcard-explain">` element
//! that visitors can expand to see how a metric was calculated, what data sources
//! were used, and when the data was last refreshed.
use vstd::prelude::*;
use vstd::string::*;

use crate::text::{contains_seq, occurs_at};

verus! {

pub const DETAILS_OPEN: &'static str = "<details class=\"mcard-explain\"><summary>";

pub const SUMMARY_CLOSE: &'static str = "</summary><p>";

pub const DETAILS_CLOSE: &'static str = "</p></details>";

pub const FRESHNESS_OPEN: &'static str = "<br><em>Last data refresh: ";

pub const FRESHNESS_CLOSE: &'static str = ".</em>";

pub const HOW_CALCULATED: &'static str = "How this is calculated";

pub const ABOUT_FORECAST: &'static str = "About this forecast";

pub const ABOUT_DATA: &'static str = "About this data";

pub const HOW_THESE_CALCULATED: &'static str = "How these numbers are calculated";

pub const INDEX_YEARS_BODY: &'static str = "Years = (avg_price_m\u{b2} \u{d7} 60) \u{f7} (net_monthly_wage \u{d7} 12). \
             Net wage uses Czech 2025 tax rules: 12.2% social/health insurance + \
             15%/23% income tax brackets, minus 2,570 CZK/month personal tax credit. \
             Sources: CZSO (wages by region), Sreality (asking prices).";

pub const INDEX_FORECAST_BODY: &'static str = "Price and wage indices are extrapolated 5 years forward using the slope \
             between the two most recent data points (recent-slope method). \
             This is a trend projection, not a prediction \u{2014} it assumes recent \
             momentum continues unchanged. Sources: FRED (property price index), \
             CZSO (wage index).";

pub const INDEX_RENT_BURDEN_BODY: &'static str = "Rent burden = (monthly_rent_60m\u{b2} \u{f7} net_monthly_wage) \u{d7} 100%. \
             Projected via recent-slope extrapolation of the last two data points over \
             5 years. Sources: Sreality (rent listings), CZSO (wages).";

pub const REGION_MONTHS_BODY: &'static str = "Months = (avg_price_m\u{b2} \u{d7} 60) \u{f7} net_monthly_wage. \
             Net wage uses Czech 2025 tax rules: 12.2% social/health insurance + \
             15%/23% income tax brackets, minus 2,570 CZK/month personal tax credit. \
             Gross-salary variant shown for comparison. \
             Sources: CZSO (wages by kraj), Sreality (asking prices).";

pub const REGION_PRICE_BODY: &'static str = "Average asking price per m\u{b2} from current Sreality listings \
             for the region. National figure = average across all tracked regions. \
             Source: Sreality.";

pub const REGION_MORTGAGE_BODY: &'static str = "Standard amortization formula: M = P[r(1+r)\u{207f}] \u{f7} [(1+r)\u{207f}\u{2212}1]. \
             Defaults: 80% LTV, 30-year term. Interest rate from CNB MFI survey \
             (mortgage_rate_avg); if unavailable, falls back to CNB 2-week repo rate \
             + 2.5 percentage-point spread. Source: CNB.";

pub const REGION_RENT_BODY: &'static str = "Ratio = (avg_rent_m\u{b2} \u{d7} 60) \u{f7} monthly_mortgage_payment. \
             Values above 1.0 mean renting is more expensive than the mortgage payment. \
             Sources: Sreality (rent listings), CNB (mortgage rates).";

pub const REGION_SAVINGS_BODY: &'static str = "Monthly savings = net_wage \u{2212} living_expenses. Living expenses \
             use CZSO consumer-basket data, region-specific where available. \
             Years to save for a 20% down payment via compound annuity formula \
             at 7% annual investment return. Source: CZSO.";

pub const COMPARE_BODY: &'static str = "Years of net salary = (avg_price_m\u{b2} \u{d7} 60) \u{f7} (net_monthly_wage \u{d7} 12). \
             Net wage uses Czech 2025 tax: 12.2% insurance + 15%/23% tax \u{2212} 2,570 CZK credit. \
             Prices are average asking prices from Sreality. Wages from CZSO, mapped \
             by kraj (region). All regions ranked highest (least affordable) first. \
             Sources: CZSO, Sreality.";

/// A single expandable disclosure.
pub struct MethodologyNote {
    pub summary: String,
    pub body: String,
}

/// The `<details>` element for a disclosure with this summary and body.
pub open spec fn note_html(summary: Seq<char>, body: Seq<char>) -> Seq<char> {
    DETAILS_OPEN@ + summary + SUMMARY_CLOSE@ + body + DETAILS_CLOSE@
}

/// The refresh stamp appended to every disclosure: nothing when no refresh
/// time is known.
pub open spec fn freshness(last_refresh: Seq<char>) -> Seq<char> {
    if last_refresh.len() == 0 {
        Seq::empty()
    } else {
        FRESHNESS_OPEN@ + last_refresh + FRESHNESS_CLOSE@
    }
}

impl MethodologyNote {
    /// Render to an HTML `<details>` element.
    pub fn to_html(&self) -> (html: String)
        ensures
            html@ == note_html(self.summary@, self.body@),
    {
        let mut html = String::from_str(DETAILS_OPEN);
        html.append(self.summary.as_str());
        html.append(SUMMARY_CLOSE);
        html.append(self.body.as_str());
        html.append(DETAILS_CLOSE);
        html
    }
}

/// Disclosures for the index (landing) page.
pub struct IndexMethodology {
    pub years_to_buy: String,
    pub forecast: String,
    pub rent_burden: String,
}

/// Disclosures for the region detail page.
pub struct RegionMethodology {
    pub months_to_buy: String,
    pub price_m2: String,
    pub mortgage: String,
    pub rent_vs_mortgage: String,
    pub savings: String,
}

pub fn freshness_line(last_refresh: &str) -> (line: String)
    ensures
        line@ == freshness(last_refresh@),
{
    if last_refresh.is_empty() {
        String::new()
    } else {
        let mut line = String::from_str(FRESHNESS_OPEN);
        line.append(last_refresh);
        line.append(FRESHNESS_CLOSE);
        line
    }
}

/// A disclosure whose body is a fixed text followed by the refresh stamp.
fn stamped_note(summary: &str, body: &str, fresh: &String) -> (note: MethodologyNote)
    ensures
        note.summary@ == summary@,
        note.body@ == body@ + fresh@,
{
    let mut b = String::from_str(body);
    b.append(fresh.as_str());
    MethodologyNote { summary: String::from_str(summary), body: b }
}

/// Build all methodology disclosures for the index page.
pub fn build_index_methodology(last_refresh: &str) -> (m: IndexMethodology)
    ensures
        m.years_to_buy@ == note_html(HOW_CALCULATED@, INDEX_YEARS_BODY@ + freshness(last_refresh@)),
        m.forecast@ == note_html(ABOUT_FORECAST@, INDEX_FORECAST_BODY@ + freshness(last_refresh@)),
        m.rent_burden@ == note_html(
            ABOUT_FORECAST@,
            INDEX_RENT_BURDEN_BODY@ + freshness(last_refresh@),
        ),
{
    let fresh = freshness_line(last_refresh);
    let years_to_buy = stamped_note(HOW_CALCULATED, INDEX_YEARS_BODY, &fresh);
    let forecast = stamped_note(ABOUT_FORECAST, INDEX_FORECAST_BODY, &fresh);
    let rent_burden = stamped_note(ABOUT_FORECAST, INDEX_RENT_BURDEN_BODY, &fresh);
    IndexMethodology {
        years_to_buy: years_to_buy.to_html(),
        forecast: forecast.to_html(),
        rent_burden: rent_burden.to_html(),
    }
}

/// Build all methodology disclosures for a region detail page.
pub fn build_region_methodology(last_refresh: &str) -> (m: RegionMethodology)
    ensures
        m.months_to_buy@ == note_html(
            HOW_CALCULATED@,
            REGION_MONTHS_BODY@ + freshness(last_refresh@),
        ),
        m.price_m2@ == note_html(ABOUT_DATA@, REGION_PRICE_BODY@ + freshness(last_refresh@)),
        m.mortgage@ == note_html(
            HOW_CALCULATED@,
            REGION_MORTGAGE_BODY@ + freshness(last_refresh@),
        ),
        m.rent_vs_mortgage@ == note_html(
            HOW_CALCULATED@,
            REGION_RENT_BODY@ + freshness(last_refresh@),
        ),
        m.savings@ == note_html(HOW_CALCULATED@, REGION_SAVINGS_BODY@ + freshness(last_refresh@)),
{
    let fresh = freshness_line(last_refresh);
    let months_to_buy = stamped_note(HOW_CALCULATED, REGION_MONTHS_BODY, &fresh);
    let price_m2 = stamped_note(ABOUT_DATA, REGION_PRICE_BODY, &fresh);
    let mortgage = stamped_note(HOW_CALCULATED, REGION_MORTGAGE_BODY, &fresh);
    let rent_vs_mortgage = stamped_note(HOW_CALCULATED, REGION_RENT_BODY, &fresh);
    let savings = stamped_note(HOW_CALCULATED, REGION_SAVINGS_BODY, &fresh);
    RegionMethodology {
        months_to_buy: months_to_buy.to_html(),
        price_m2: price_m2.to_html(),
        mortgage: mortgage.to_html(),
        rent_vs_mortgage: rent_vs_mortgage.to_html(),
        savings: savings.to_html(),
    }
}

/// Build methodology disclosure for the compare page.
pub fn build_compare_methodology(last_refresh: &str) -> (note: MethodologyNote)
    ensures
        note.summary@ == HOW_THESE_CALCULATED@,
        note.body@ == COMPARE_BODY@ + freshness(last_refresh@),
{
    let fresh = freshness_line(last_refresh);
    stamped_note(HOW_THESE_CALCULATED, COMPARE_BODY, &fresh)
}

/// A disclosure built from a fixed text shows the refresh time when one is
/// given, and is exactly the unstamped disclosure when none is.
pub proof fn lemma_refresh_stamp(summary: Seq<char>, body: Seq<char>, last_refresh: Seq<char>)
    ensures
        last_refresh.len() > 0 ==> contains_seq(
            note_html(summary, body + freshness(last_refresh)),
            last_refresh,
        ),
        last_refresh.len() == 0 ==> note_html(summary, body + freshness(last_refresh)) == note_html(
            summary,
            body,
        ),
{
    if last_refresh.len() > 0 {
        let pre = DETAILS_OPEN@ + summary + SUMMARY_CLOSE@ + body + FRESHNESS_OPEN@;
        let html = note_html(summary, body + freshness(last_refresh));
        assert(html =~= pre + last_refresh + (FRESHNESS_CLOSE@ + DETAILS_CLOSE@));
        assert(html.subrange(pre.len() as int, (pre.len() + last_refresh.len()) as int) =~= last_refresh);
        assert(occurs_at(html, last_refresh, pre.len() as int));
    } else {
        assert(body + freshness(last_refresh) =~= body);
    }
}

/// A rendered disclosure opens with the `<details>` tag, holds its summary
/// and its body, and closes the element.
pub proof fn lemma_note_html_shape(summary: Seq<char>, body: Seq<char>)
    ensures
        note_html(summary, body).take(DETAILS_OPEN@.len() as int) == DETAILS_OPEN@,
        contains_seq(note_html(summary, body), summary),
        contains_seq(note_html(summary, body), body),
        note_html(summary, body).skip(note_html(summary, body).len() - DETAILS_CLOSE@.len()) == DETAILS_CLOSE@,
{
    let h = note_html(summary, body);
    let a = DETAILS_OPEN@;
    let b = a + summary + SUMMARY_CLOSE@;
    assert(h.take(a.len() as int) =~= a);
    assert(h.subrange(a.len() as int, (a.len() + summary.len()) as int) =~= summary);
    assert(occurs_at(h, summary, a.len() as int));
    assert(h.subrange(b.len() as int, (b.len() + body.len()) as int) =~= body);
    assert(occurs_at(h, body, b.len() as int));
    assert(h.skip(h.len() - DETAILS_CLOSE@.len()) =~= DETAILS_CLOSE@);
}

} // verus!
