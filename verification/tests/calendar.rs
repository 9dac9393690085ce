use rurix_render::calendar::{civil_from_days, utc_timestamp};

#[test]
fn timestamps_of_known_instants() {
    assert_eq!(utc_timestamp(0), "1970-01-01T00:00:00Z");
    assert_eq!(utc_timestamp(951782400), "2000-02-29T00:00:00Z");
    assert_eq!(utc_timestamp(1700000000), "2023-11-14T22:13:20Z");
    assert_eq!(utc_timestamp(4107542399), "2100-02-28T23:59:59Z");
    assert_eq!(utc_timestamp(4107542400), "2100-03-01T00:00:00Z");
    assert_eq!(utc_timestamp(253402300799), "9999-12-31T23:59:59Z");
}

#[test]
fn dates_of_day_counts() {
    assert_eq!(civil_from_days(0), (1970, 1, 1));
    assert_eq!(civil_from_days(365), (1971, 1, 1));
    assert_eq!(civil_from_days(146097), (2370, 1, 1));
    assert_eq!(civil_from_days(11016), (2000, 2, 29));
    // far beyond four digits of years
    let (y, m, d) = civil_from_days(u64::MAX);
    assert!(y > 9999 && (1..=12).contains(&m) && (1..=31).contains(&d));
}
