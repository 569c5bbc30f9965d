use bydleni::cnb::{fx_table, rate_history, rate_history_panics_of};
use bydleni::config::{Config, ConfigError};
use bydleni::czso::{
    col_index, csv_resource_url, wage_records, wage_records_of, PackageError, PackageInfo, PackageResource,
    WageCsvError,
};
use bydleni::format::group_thousands;
use bydleni::forecast::{forecast_labels, forecast_years_after, history_series, projection_series};
use bydleni::queries::ranged_sql;
use bydleni::scenario::default_mortgage_years;

#[test]
fn rate_history_lines() {
    let text = "PLATNA_OD|CNB_REPO_SAZBA_V_%\r\n19951208|11,30\r\nbad line\n2024120|1,0\n20240101 | 4,00 \n";
    assert!(!rate_history_panics_of(text));
    let obs = rate_history(text);
    let got: Vec<(String, String)> = obs.into_iter().map(|o| (o.date, o.value_text)).collect();
    assert_eq!(
        got,
        vec![
            ("1995-12-08".to_string(), "11.30".to_string()),
            ("2024-01-01".to_string(), "4.00".to_string()),
        ]
    );
    assert!(rate_history("").is_empty());
    assert!(rate_history_panics_of("h\n20é1é1|1"));
}

#[test]
fn fx_table_rows() {
    let text = "06.03.2026 #046\nzemě|měna|množství|kód|kurz\nAustrálie|dolar|1|AUD|14,788\nJaponsko|jen|100|JPY|15,512\nshort|line\n";
    let t = fx_table(text).unwrap();
    assert_eq!(t.date, Some("2026-03-06".to_string()));
    assert_eq!(t.rows.len(), 2);
    assert_eq!(t.rows[0].indicator, "fx_aud");
    assert_eq!(t.rows[0].amount_text, "1");
    assert_eq!(t.rows[0].rate_text, "14.788");
    assert_eq!(t.rows[1].indicator, "fx_jpy");
    assert_eq!(t.rows[1].amount_text, "100");
    assert!(fx_table("").is_none());
    assert_eq!(fx_table("no date here").unwrap().date, None);
}

const WAGE_CSV: &str = "idhod,hodnota,stapro_kod,SPKVANTIL_cis,SPKVANTIL_kod,POHLAVI_cis,POHLAVI_kod,rok,uzemi_cis,uzemi_kod,STAPRO_TXT,uzemi_txt,SPKVANTIL_txt,POHLAVI_txt
1,45000,5958,,,,,2024,100,19,Mzda,Hlavní město Praha,,
2,40000,5958,7636,Q50,,,2024,100,19,Mzda,Hlavní město Praha,medián,
3,38000,5958,,,102,1,2024,100,19,Mzda,Hlavní město Praha,,muži
4,39000,5958,,,,,2023,100,27,Mzda, Kraj Vysočina ,,
5,1,5958,,,,,2023,100,27,Mzda,Neznámo,,
6,2
7,41000,5958,,,,,2022,100,0,Mzda,Česká republika,,
";

#[test]
fn wage_csv_records() {
    let recs = wage_records(WAGE_CSV).unwrap();
    let got: Vec<(String, String, String)> =
        recs.into_iter().map(|r| (r.region, r.date, r.value_text)).collect();
    assert_eq!(
        got,
        vec![
            ("praha".to_string(), "2024-01-01".to_string(), "45000".to_string()),
            ("vysocina".to_string(), "2023-01-01".to_string(), "39000".to_string()),
            ("national".to_string(), "2022-01-01".to_string(), "41000".to_string()),
        ]
    );
}

#[test]
fn wage_csv_missing_column() {
    let r = wage_records("idhod,hodnota,rok\n1,2,3\n");
    assert!(matches!(r, Err(WageCsvError::MissingColumn(ref c)) if c == "SPKVANTIL_kod"));
    let r = wage_records("");
    assert!(matches!(r, Err(WageCsvError::MissingColumn(ref c)) if c == "hodnota"));
}

#[test]
fn column_positions() {
    let h: Vec<String> = ["a", "b", "a"].iter().map(|s| s.to_string()).collect();
    assert_eq!(col_index(&h, "a"), Ok(0));
    assert_eq!(col_index(&h, "b"), Ok(1));
    assert_eq!(col_index(&h, "c"), Err(WageCsvError::MissingColumn("c".to_string())));
}

fn resource(format: Option<&str>, url: Option<&str>) -> PackageResource {
    PackageResource { format: format.map(|s| s.to_string()), url: url.map(|s| s.to_string()) }
}

#[test]
fn package_csv_url() {
    let info = PackageInfo {
        success: Some(true),
        error_message: None,
        resources: Some(vec![
            resource(Some("json"), Some("j")),
            resource(Some("text/csv"), Some("https://x/a.csv")),
            resource(Some("csv"), Some("second")),
        ]),
    };
    assert_eq!(csv_resource_url(&info), Ok("https://x/a.csv".to_string()));
    let failed = PackageInfo { success: Some(false), error_message: None, resources: None };
    assert_eq!(csv_resource_url(&failed), Err(PackageError::Api("unknown".to_string())));
    let failed = PackageInfo { success: None, error_message: Some("boom".into()), resources: None };
    assert_eq!(csv_resource_url(&failed), Err(PackageError::Api("boom".to_string())));
    let none = PackageInfo { success: Some(true), error_message: None, resources: None };
    assert_eq!(csv_resource_url(&none), Err(PackageError::NoResources));
    let no_url = PackageInfo {
        success: Some(true),
        error_message: None,
        resources: Some(vec![resource(Some("csv"), None), resource(Some("csv"), Some("u"))]),
    };
    assert_eq!(csv_resource_url(&no_url), Err(PackageError::NoCsv));
}

#[test]
fn thousands_grouping() {
    assert_eq!(group_thousands("17033", false), "17\u{a0}033");
    assert_eq!(group_thousands("1234567", true), "-1\u{a0}234\u{a0}567");
    assert_eq!(group_thousands("999", false), "999");
    assert_eq!(group_thousands("", false), "");
    assert_eq!(group_thousands("1000", false).replace('\u{a0}', ""), "1000");
}

#[test]
fn forecast_shape() {
    let years = vec![2010, 2015, 2020, 2025];
    let labels = forecast_labels(&years, 5);
    assert_eq!(labels.len(), 9);
    assert_eq!(labels[0], "2010");
    assert_eq!(labels[8], "2030");
    assert_eq!(forecast_years_after(2025, 3), vec![2026, 2027, 2028]);
    assert!(forecast_years_after(2025, u32::MAX).is_empty());
    let hist = history_series(&vec![100.0, 130.0], 4);
    assert_eq!(hist, vec![Some(100.0), Some(130.0), None, None]);
    let proj = projection_series(130.0, &vec![140.0, 150.0], 2);
    assert_eq!(proj, vec![None, Some(130.0), Some(140.0), Some(150.0)]);
    assert_eq!(proj[1], hist[1]);
}

#[test]
fn config_from_vars() {
    let c = Config::from_vars(None, Some("sqlite:x.db".into()), None).unwrap();
    assert_eq!(c.fred_api_key, "");
    assert_eq!(c.database_url, "sqlite:x.db");
    assert_eq!(c.server_port, 3000);
    let c = Config::from_vars(Some("k".into()), Some("d".into()), Some("8080".into())).unwrap();
    assert_eq!((c.fred_api_key.as_str(), c.server_port), ("k", 8080));
    assert_eq!(
        Config::from_vars(None, None, Some("x".into())).unwrap_err(),
        ConfigError::MissingDatabaseUrl
    );
    assert_eq!(
        Config::from_vars(None, Some("d".into()), Some("70000".into())).unwrap_err(),
        ConfigError::InvalidPort
    );
}

#[test]
fn scenario_default_term() {
    assert_eq!(default_mortgage_years(), 30);
}

#[test]
fn ranged_sql_adds_the_bounds_in_order() {
    assert_eq!(
        ranged_sql("SELECT x FROM t WHERE a = ?", true, true),
        "SELECT x FROM t WHERE a = ? AND date >= ? AND date <= ? ORDER BY date ASC"
    );
    assert_eq!(
        ranged_sql("SELECT x FROM t WHERE a = ?", false, true),
        "SELECT x FROM t WHERE a = ? AND date <= ? ORDER BY date ASC"
    );
    assert_eq!(ranged_sql("Q", false, false), "Q ORDER BY date ASC");
}

fn fields(v: &[&str]) -> Vec<String> {
    v.iter().map(|s| s.to_string()).collect()
}

#[test]
fn wage_records_of_keeps_regional_averages_of_both_sexes() {
    let headers = fields(&["hodnota", "SPKVANTIL_kod", "POHLAVI_kod", "rok", "uzemi_txt"]);
    let rows = vec![
        Some(fields(&["45000", "", "", "2023", "Hlavní město Praha"])),
        Some(fields(&["40000", "Q50", "", "2023", "Hlavní město Praha"])),
        Some(fields(&["41000", "", "1", "2023", "Hlavní město Praha"])),
        None,
        Some(fields(&["39000", "", "", "2023", "Neznámý kraj"])),
        Some(fields(&[" 38000 ", "", "", "2022", "Kraj Vysočina"])),
    ];
    let recs = wage_records_of(&headers, &rows).unwrap();
    let got: Vec<(&str, &str, &str)> =
        recs.iter().map(|r| (r.region.as_str(), r.date.as_str(), r.value_text.as_str())).collect();
    assert_eq!(
        got,
        vec![("praha", "2023-01-01", "45000"), ("vysocina", "2022-01-01", "38000")]
    );
}

#[test]
fn wage_records_of_needs_every_column() {
    let headers = fields(&["hodnota", "SPKVANTIL_kod", "POHLAVI_kod", "rok"]);
    let r = wage_records_of(&headers, &Vec::new());
    assert_eq!(r.err(), Some(WageCsvError::MissingColumn("uzemi_txt".to_string())));
}

#[test]
fn wage_records_of_names_the_first_missing_column() {
    let headers = fields(&["hodnota", "POHLAVI_kod", "uzemi_txt"]);
    let r = wage_records_of(&headers, &Vec::new());
    assert_eq!(r.err(), Some(WageCsvError::MissingColumn("SPKVANTIL_kod".to_string())));
}
