use blog::date::Date;

fn ymd(d: &Date) -> (i32, u32, u32) {
    (d.year(), d.month(), d.day())
}

#[test]
fn from_ymd_opt_accepts_existing_days() {
    assert_eq!(ymd(&Date::from_ymd_opt(2015, 3, 14).unwrap()), (2015, 3, 14));
    assert_eq!(ymd(&Date::from_ymd_opt(2024, 2, 29).unwrap()), (2024, 2, 29));
    assert_eq!(ymd(&Date::from_ymd_opt(2000, 2, 29).unwrap()), (2000, 2, 29));
    // 5 BCE is a leap year
    assert!(Date::from_ymd_opt(-4, 2, 29).is_some());
}

#[test]
fn from_ymd_opt_rejects_missing_days() {
    assert!(Date::from_ymd_opt(2015, 0, 14).is_none());
    assert!(Date::from_ymd_opt(2015, 13, 1).is_none());
    assert!(Date::from_ymd_opt(2015, 2, 29).is_none());
    assert!(Date::from_ymd_opt(1900, 2, 29).is_none());
    assert!(Date::from_ymd_opt(2023, 4, 31).is_none());
    assert!(Date::from_ymd_opt(2023, 4, 0).is_none());
}

#[test]
fn from_ymd_opt_year_range() {
    assert!(Date::from_ymd_opt(262142, 12, 31).is_some());
    assert!(Date::from_ymd_opt(262143, 1, 1).is_none());
    assert!(Date::from_ymd_opt(-262143, 1, 1).is_some());
    assert!(Date::from_ymd_opt(-262144, 12, 31).is_none());
    assert!(Date::from_ymd_opt(400000, 1, 1).is_none());
    assert!(Date::from_ymd_opt(-400000, 1, 1).is_none());
}

#[test]
fn zero_based_month_and_day() {
    let d = Date::from_ymd_opt(2025, 4, 13).unwrap();
    assert_eq!(d.month0(), 3);
    assert_eq!(d.day0(), 12);
}

#[test]
fn format_writes_year_month_day() {
    let d = Date::from_ymd_opt(2025, 4, 13).unwrap();
    assert_eq!(d.format("%Y-%m-%d"), "2025-04-13");
    assert_eq!(d.format("%Y/%m/%d"), "2025/04/13");
}

#[test]
fn format_pads_and_signs_years() {
    let d = Date::from_ymd_opt(5, 1, 2).unwrap();
    assert_eq!(d.format("%Y-%m-%d"), "0005-01-02");
    let d = Date::from_ymd_opt(-5, 1, 2).unwrap();
    assert_eq!(d.format("%Y-%m-%d"), "-0005-01-02");
    let d = Date::from_ymd_opt(10000, 12, 31).unwrap();
    assert_eq!(d.format("%Y/%m/%d"), "+10000/12/31");
    let d = Date::from_ymd_opt(-262143, 1, 1).unwrap();
    assert_eq!(d.format("%Y-%m-%d"), "-262143-01-01");
}

#[test]
fn parse_from_str_reads_dates() {
    let d = Date::parse_from_str("2025-04-13", "%Y-%m-%d").unwrap();
    assert_eq!(ymd(&d), (2025, 4, 13));
    let d = Date::parse_from_str("2025-4-3", "%Y-%m-%d").unwrap();
    assert_eq!(ymd(&d), (2025, 4, 3));
    assert!(Date::parse_from_str("2025-02-30", "%Y-%m-%d").is_none());
    assert!(Date::parse_from_str("13/04/2025", "%Y-%m-%d").is_none());
    assert!(Date::parse_from_str("not a date", "%Y-%m-%d").is_none());
    assert!(Date::parse_from_str("", "%Y-%m-%d").is_none());
}

#[test]
fn written_dates_read_back() {
    for (y, m, d) in [(2025, 4, 13), (5, 1, 2), (-5, 12, 31), (10000, 2, 29), (-262143, 1, 1), (262142, 12, 31)] {
        let date = Date::from_ymd_opt(y, m, d).unwrap();
        let text = date.format("%Y-%m-%d");
        let back = Date::parse_from_str(&text, "%Y-%m-%d").unwrap();
        assert_eq!(ymd(&back), (y, m, d));
    }
}
