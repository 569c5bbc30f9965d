use bydleni::dates::{
    closest_year_panics_of, date_distance, distance_panics_of, find_closest_index,
    find_yoy_match, leading_year, leading_year_panics, nearby_year_patterns, year_ago,
    year_ago_panics_of, year_pattern, yoy_match_panics_of,
};

fn strings(v: &[&str]) -> Vec<String> {
    v.iter().map(|s| s.to_string()).collect()
}

#[test]
fn distance_between_iso_dates() {
    assert_eq!(date_distance("2023-03-15", "2023-01-01"), 2 * 30 + 14);
    assert_eq!(date_distance("2023-01-01", "2023-03-15"), 74);
    assert_eq!(date_distance("2024-01-01", "2023-01-01"), 365);
}

#[test]
fn distance_between_quarters_and_years() {
    assert_eq!(date_distance("2023-Q3", "2023-Q1"), 182);
    assert_eq!(date_distance("2023", "2022"), 365);
    assert_eq!(date_distance("2023", "2023-07-02"), 0);
}

#[test]
fn distance_unparsable_is_max() {
    assert_eq!(date_distance("garbage", "2023-01-01"), u32::MAX);
    assert_eq!(date_distance("20x3-01-01", "2023-01-01"), u32::MAX);
    assert_eq!(date_distance("2023-Qx", "2023-Q1"), u32::MAX);
    assert_eq!(date_distance("", ""), u32::MAX);
}

#[test]
fn distance_is_symmetric_and_zero_on_itself() {
    for (a, b) in [("2020-05-01", "2021-02-10"), ("2019-Q4", "2021"), ("2021", "2010-01-01")] {
        assert_eq!(date_distance(a, b), date_distance(b, a));
        assert_eq!(date_distance(a, a), 0);
    }
}

#[test]
fn year_ago_formats() {
    assert_eq!(year_ago("2023-05-01"), Some("2022-05-01".to_string()));
    assert_eq!(year_ago("2023-Q2"), Some("2022-Q2".to_string()));
    assert_eq!(year_ago("2023"), Some("2022".to_string()));
    assert_eq!(year_ago("23-01"), None);
    assert_eq!(year_ago("abcd-01-01"), None);
}

#[test]
fn year_ago_is_one_year_back() {
    for d in ["2023-05-01", "2023-Q2", "2023", "1001-12-31"] {
        let back = year_ago(d).unwrap();
        assert_eq!(date_distance(&back, d), 365);
    }
}

#[test]
fn panicking_inputs_are_reported() {
    // byte 4 falls inside the two-byte 'é'
    assert!(year_ago_panics_of("202é-Q1"));
    assert!(!year_ago_panics_of("2023-Q1"));
    assert!(distance_panics_of("2023-Q999999999", "2023"));
    assert!(!distance_panics_of("2023-Q99999999999", "2023"));
    assert!(distance_panics_of("2023-Q-2147483648", "2023"));
    assert!(!distance_panics_of("2023-Q4", "2023-01-01"));
    assert!(leading_year_panics("202"));
    assert!(!leading_year_panics("2024-01-01"));
}

#[test]
fn yoy_match_picks_nearest_within_45_days() {
    let dates = strings(&["2021-11-01", "2022-02-20", "2022-03-10", "2022-03-20", "2023-03-01"]);
    assert!(!yoy_match_panics_of(&dates, "2023-03-15"));
    // target 2022-03-15: distances 134(no), 25, 5, 5, 351(no); first of the nearest
    assert_eq!(find_yoy_match(&dates, "2023-03-15"), Some(2));
    assert_eq!(find_yoy_match(&dates, "2025-03-15"), None);
    assert_eq!(find_yoy_match(&dates, "bad"), None);
}

#[test]
fn closest_index_prefers_exact_year() {
    let dates = strings(&["2009-01-01", "2011-06-30", "2010-04-01", "2010-07-01"]);
    assert!(!closest_year_panics_of(&dates, 2010));
    assert_eq!(find_closest_index(&dates, 2010), Some(2));
    assert_eq!(find_closest_index(&dates, 2012), Some(1));
    assert_eq!(find_closest_index(&dates, 2008), Some(0));
    let empty: Vec<String> = Vec::new();
    assert_eq!(find_closest_index(&empty, 2010), None);
    let odd = strings(&["xx", "abcd"]);
    assert!(closest_year_panics_of(&odd, 2010));
    let unreadable = strings(&["abcd"]);
    assert_eq!(find_closest_index(&unreadable, 2010), None);
}

#[test]
fn leading_years() {
    assert_eq!(leading_year("2024-01-01"), Some(2024));
    assert_eq!(leading_year("-999-01-01"), Some(-999));
    assert_eq!(leading_year("20a4-01-01"), None);
}

#[test]
fn year_pattern_matches_dates_in_the_year() {
    assert_eq!(year_pattern("2015"), "2015%");
}

#[test]
fn nearby_years_are_tried_nearest_first() {
    assert_eq!(nearby_year_patterns("2015"), vec!["2016%", "2014%", "2017%", "2013%"]);
}

#[test]
fn nearby_years_of_an_unreadable_year_start_at_zero() {
    assert_eq!(nearby_year_patterns("20x5"), vec!["1%", "-1%", "2%", "-2%"]);
}
