use bydleni::methodology::{
    build_compare_methodology, build_index_methodology, build_region_methodology, freshness_line,
    MethodologyNote,
};

#[test]
fn to_html_produces_details_element() {
    let note = MethodologyNote { summary: "Test summary".into(), body: "Test body".into() };
    let html = note.to_html();
    assert!(html.starts_with("<details class=\"mcard-explain\">"));
    assert!(html.contains("<summary>Test summary</summary>"));
    assert!(html.contains("<p>Test body</p>"));
    assert!(html.ends_with("</details>"));
}

#[test]
fn index_methodology_fields_non_empty() {
    let m = build_index_methodology("");
    assert!(!m.years_to_buy.is_empty());
    assert!(!m.forecast.is_empty());
    assert!(!m.rent_burden.is_empty());
}

#[test]
fn region_methodology_fields_non_empty() {
    let m = build_region_methodology("");
    assert!(!m.months_to_buy.is_empty());
    assert!(!m.price_m2.is_empty());
    assert!(!m.mortgage.is_empty());
    assert!(!m.rent_vs_mortgage.is_empty());
    assert!(!m.savings.is_empty());
}

#[test]
fn freshness_appears_when_provided() {
    let m = build_index_methodology("2025-06-01 12:00");
    assert!(m.years_to_buy.contains("2025-06-01 12:00"));
}

#[test]
fn freshness_omitted_when_empty() {
    let m = build_index_methodology("");
    assert!(!m.years_to_buy.contains("Last data refresh"));
}

#[test]
fn sources_mentioned_in_index() {
    let m = build_index_methodology("");
    assert!(m.years_to_buy.contains("CZSO"));
    assert!(m.years_to_buy.contains("Sreality"));
    assert!(m.forecast.contains("FRED"));
    assert!(m.rent_burden.contains("Sreality"));
}

#[test]
fn sources_mentioned_in_region() {
    let m = build_region_methodology("");
    assert!(m.months_to_buy.contains("CZSO"));
    assert!(m.price_m2.contains("Sreality"));
    assert!(m.mortgage.contains("CNB"));
    assert!(m.rent_vs_mortgage.contains("CNB"));
    assert!(m.savings.contains("CZSO"));
}

#[test]
fn compare_methodology_populated() {
    let note = build_compare_methodology("2025-01-01");
    let html = note.to_html();
    assert!(html.contains("CZSO"));
    assert!(html.contains("Sreality"));
    assert!(html.contains("2025-01-01"));
}

#[test]
fn freshness_line_exact_text() {
    assert_eq!(freshness_line(""), "");
    assert_eq!(
        freshness_line("2025-06-01 12:00 UTC"),
        "<br><em>Last data refresh: 2025-06-01 12:00 UTC.</em>"
    );
}

#[test]
fn refresh_stamp_in_every_disclosure() {
    let stamp = "2030-12-31 23:59 UTC";
    let i = build_index_methodology(stamp);
    for s in [&i.years_to_buy, &i.forecast, &i.rent_burden] {
        assert!(s.contains(stamp));
        assert!(s.ends_with(".</em></p></details>"));
    }
    let r = build_region_methodology(stamp);
    for s in [&r.months_to_buy, &r.price_m2, &r.mortgage, &r.rent_vs_mortgage, &r.savings] {
        assert!(s.contains(stamp));
    }
    let unstamped = build_index_methodology("");
    assert_eq!(
        i.years_to_buy.replace("<br><em>Last data refresh: 2030-12-31 23:59 UTC.</em>", ""),
        unstamped.years_to_buy
    );
}

#[test]
fn index_note_exact_html() {
    let m = build_index_methodology("");
    assert_eq!(
        m.rent_burden,
        "<details class=\"mcard-explain\"><summary>About this forecast</summary><p>Rent burden = \
         (monthly_rent_60m\u{b2} \u{f7} net_monthly_wage) \u{d7} 100%. Projected via recent-slope \
         extrapolation of the last two data points over 5 years. Sources: Sreality (rent \
         listings), CZSO (wages).</p></details>"
    );
}

#[test]
fn compare_note_summary_and_stamp() {
    let note = build_compare_methodology("x");
    assert_eq!(note.summary, "How these numbers are calculated");
    assert!(note.body.ends_with("Sources: CZSO, Sreality.<br><em>Last data refresh: x.</em>"));
}
