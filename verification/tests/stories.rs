use bydleni::stories::{severity_to_color, Severity, Story, StoryKind};
use bydleni::templates::story_to_view;

#[test]
fn kind_labels() {
    assert_eq!(StoryKind::HistoricalChange.label(), "Historical");
    assert_eq!(StoryKind::WagesVsPrices.label(), "Wages vs Prices");
    assert_eq!(StoryKind::RentMortgageCrossover.label(), "Rent vs Mortgage");
    assert_eq!(StoryKind::ForecastDirection.label(), "Forecast");
    assert_eq!(StoryKind::SavingsTimeline.label(), "Savings");
}

#[test]
fn severity_heat_classes_follow_order() {
    let all = [
        Severity::Good,
        Severity::Moderate,
        Severity::Concerning,
        Severity::Bad,
        Severity::Critical,
    ];
    let classes: Vec<&str> = all.iter().map(|s| severity_to_color(*s)).collect();
    assert_eq!(classes, vec!["heat-1", "heat-2", "heat-3", "heat-4", "heat-5"]);
    for w in all.windows(2) {
        assert!(w[0] < w[1]);
        assert!(severity_to_color(w[0]) < severity_to_color(w[1]));
    }
}

#[test]
fn story_card_colour_and_view() {
    let s = Story::new(
        StoryKind::SavingsTimeline,
        Severity::Bad,
        "18 years to save".to_string(),
        "body".to_string(),
        "brno".to_string(),
        "Brno".to_string(),
    );
    assert_eq!(s.color_class, "heat-4");
    let v = story_to_view(&s);
    assert_eq!(v.headline, "18 years to save");
    assert_eq!(v.body, "body");
    assert_eq!(v.region_slug, "brno");
    assert_eq!(v.region_name, "Brno");
    assert_eq!(v.color_class, "heat-4");
    assert_eq!(v.kind_label, "Savings");
}
