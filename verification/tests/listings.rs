use bydleni::listings::{
    area_candidates, build_listing_url, estate_query, extract_layout_from_name, last_page_reached,
    listing_price, locality_query, sreality_regions, LocalityFilter, TYPE_RENT, TYPE_SALE,
};

/// The area in a title: the first candidate that reads as a number from
/// 10 to 500.
fn extract_area_from_name(name: &str) -> Option<f64> {
    for c in area_candidates(name) {
        if let Ok(area) = c.parse::<f64>() {
            if (10.0..=500.0).contains(&area) {
                return Some(area);
            }
        }
    }
    None
}

#[test]
fn test_extract_area_from_name() {
    assert_eq!(extract_area_from_name("Prodej bytu 3+kk 75 m²"), Some(75.0));
    assert_eq!(extract_area_from_name("Pronájem bytu 2+1 55 m²"), Some(55.0));
    assert_eq!(extract_area_from_name("Prodej bytu 120 m²"), Some(120.0));
    assert_eq!(extract_area_from_name("Prodej bytu 3+1\u{a0}67\u{a0}m²"), Some(67.0));
    assert_eq!(extract_area_from_name("Prodej bytu 2+kk 44\u{a0}m²"), Some(44.0));
    assert_eq!(extract_area_from_name("No area here"), None);
}

#[test]
fn test_extract_layout_from_name() {
    assert_eq!(extract_layout_from_name("Prodej bytu 3+kk 75 m²"), Some("3+kk".to_string()));
    assert_eq!(extract_layout_from_name("Pronájem bytu 2+1 55 m²"), Some("2+1".to_string()));
    assert_eq!(extract_layout_from_name("Prodej bytu 4+KK 120 m²"), Some("4+kk".to_string()));
    assert_eq!(extract_layout_from_name("Prodej domu"), None);
}

#[test]
fn layout_needs_three_bytes_and_leading_digit() {
    assert_eq!(extract_layout_from_name("byt 1+ x"), None);
    assert_eq!(extract_layout_from_name("byt a+1 b"), None);
    assert_eq!(extract_layout_from_name("byt\u{a0}1+1\u{a0}x"), Some("1+1".to_string()));
    assert_eq!(extract_layout_from_name("2+1 a 3+kk"), Some("2+1".to_string()));
}

#[test]
fn area_candidates_in_marker_order() {
    assert_eq!(area_candidates("Byt 75 m² a 80 m2"), vec!["75".to_string(), "80".to_string()]);
    assert_eq!(area_candidates("Byt 3.5 m "), vec!["3.5".to_string()]);
    assert_eq!(area_candidates("Bytm²"), vec!["".to_string()]);
    assert!(area_candidates("Nothing").is_empty());
}

#[test]
fn listing_urls() {
    assert_eq!(
        build_listing_url(TYPE_SALE, "Prodej bytu 3+kk 75 m²", Some(123), Some("praha-vinohrady"), "praha"),
        "https://www.sreality.cz/detail/prodej/byt/3+kk/praha-vinohrady/123"
    );
    assert_eq!(
        build_listing_url(TYPE_RENT, "Pronájem bytu", Some(-7), None, "hradec_kralove"),
        "https://www.sreality.cz/detail/pronajem/byt/byt/hradec-kralove/-7"
    );
    assert_eq!(
        build_listing_url(TYPE_SALE, "Prodej bytu 2+1", None, Some("x"), "usti_nad_labem"),
        "https://www.sreality.cz/hledani/prodej/byty/usti-nad-labem"
    );
}

#[test]
fn listing_prices() {
    assert_eq!(listing_price(100, Some(250)), Some(250));
    assert_eq!(listing_price(100, None), Some(100));
    assert_eq!(listing_price(100, Some(0)), None);
    assert_eq!(listing_price(-5, None), None);
}

#[test]
fn paging_stops_at_total() {
    assert!(!last_page_reached(0, 60, 61));
    assert!(last_page_reached(1, 60, 120));
    assert!(last_page_reached(0, 60, 0));
}

#[test]
fn locality_parameters() {
    assert_eq!(
        locality_query(LocalityFilter::Region(10)),
        ("locality_region_id", "10".to_string())
    );
    assert_eq!(
        locality_query(LocalityFilter::District(72)),
        ("locality_district_id", "72".to_string())
    );
    let regions = sreality_regions();
    assert_eq!(regions.len(), 14);
    assert_eq!(regions[0], ("praha", "Praha", LocalityFilter::Region(10)));
    assert_eq!(regions[13].0, "stredocesky");
    assert_eq!(regions[1], ("brno", "Brno", LocalityFilter::District(72)));
    assert_eq!(regions[2], ("ostrava", "Ostrava", LocalityFilter::District(65)));
    assert_eq!(regions[13], ("stredocesky", "Středočeský kraj", LocalityFilter::Region(11)));
}

#[test]
fn estate_query_lists_the_search_parameters() {
    let q = estate_query(TYPE_RENT, LocalityFilter::District(72), 60, 0);
    let pairs: Vec<(&str, &str)> = q.iter().map(|(k, v)| (*k, v.as_str())).collect();
    assert_eq!(
        pairs,
        vec![
            ("category_main_cb", "1"),
            ("category_type_cb", "2"),
            ("locality_district_id", "72"),
            ("per_page", "60"),
            ("page", "1"),
            ("sort", "0"),
        ]
    );
}

#[test]
fn estate_query_pages_count_from_one() {
    let q = estate_query(TYPE_SALE, LocalityFilter::Region(10), 60, 4);
    assert_eq!(q[2].0, "locality_region_id");
    assert_eq!(q[2].1, "10");
    assert_eq!(q[4].1, "5");
}
