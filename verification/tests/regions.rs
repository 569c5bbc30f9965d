use bydleni::regions::{
    city_to_kraj, compute_regions, display_name, lookup_slug, region_slug_map, slug_to_display_name,
    snapshot_years,
};

#[test]
fn city_kraj_mapping() {
    assert_eq!(city_to_kraj("praha"), Some("praha"));
    assert_eq!(city_to_kraj("brno"), Some("jihomoravsky"));
    assert_eq!(city_to_kraj("jihlava"), Some("vysocina"));
    assert_eq!(city_to_kraj("national"), None);
    assert_eq!(city_to_kraj("Praha"), None);
}

#[test]
fn every_capital_has_a_czso_kraj() {
    let map = region_slug_map();
    for r in compute_regions().into_iter().skip(1) {
        let k = city_to_kraj(r).unwrap();
        assert!(map.iter().any(|(_, slug)| *slug == k), "{r} -> {k}");
    }
    assert_eq!(compute_regions().len(), 15);
    assert_eq!(compute_regions()[0], "national");
}

#[test]
fn display_names() {
    assert_eq!(slug_to_display_name("praha"), "Praha");
    assert_eq!(slug_to_display_name("national"), "Czech Republic");
    assert_eq!(slug_to_display_name("stredocesky"), "Středočeský kraj");
    assert_eq!(slug_to_display_name("hradec_kralove"), "Hradec Kralove");
    assert_eq!(slug_to_display_name("some_new_region"), "some new region");
    assert_eq!(slug_to_display_name(""), "");
    assert_eq!(display_name("brno"), "Brno");
}

#[test]
fn czso_names_map_to_slugs() {
    let map = region_slug_map();
    assert_eq!(map.len(), 15);
    assert_eq!(lookup_slug(&map, "Hlavní město Praha"), Some("praha"));
    assert_eq!(lookup_slug(&map, "Kraj Vysočina"), Some("vysocina"));
    assert_eq!(lookup_slug(&map, "Česká republika"), Some("national"));
    assert_eq!(lookup_slug(&map, "Vysočina"), None);
}

#[test]
fn lookup_takes_last_duplicate() {
    let map = vec![("a", "first"), ("b", "x"), ("a", "second")];
    assert_eq!(lookup_slug(&map, "a"), Some("second"));
}

#[test]
fn snapshot_year_list() {
    assert_eq!(snapshot_years(), vec![2010, 2015, 2020]);
}
