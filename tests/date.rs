use apple_releases::date::{Date, DateParseFailure};

#[test]
fn long_dates_parse() {
    let d = Date::parse_long("August 8, 2022").unwrap();
    assert_eq!((d.year(), d.month(), d.day()), (2022, 8, 8));
    assert_eq!(d.iso(), "2022-08-08");
    let e = Date::parse_long("February 29, 2024").unwrap();
    assert_eq!(e.iso(), "2024-02-29");
}

#[test]
fn malformed_dates_fail() {
    assert_eq!(Date::parse_long("2022-11-15"), Err(DateParseFailure));
    assert_eq!(Date::parse_long("February 30, 2022"), Err(DateParseFailure));
    assert_eq!(Date::parse_long(""), Err(DateParseFailure));
    assert_eq!(Date::parse_long("Apr 3, 2022"), Err(DateParseFailure));
    assert_eq!(Date::parse_long("April 3, 22"), Err(DateParseFailure));
    assert_eq!(Date::parse_long("April 123, 2022"), Err(DateParseFailure));
    assert_eq!(Date::parse_long("april 3, 2022"), Err(DateParseFailure));
    assert_eq!(Date::parse_long("May 1, 2022").unwrap().iso(), "2022-05-01");
    assert_eq!(Date::parse_long("April 03, 2022").unwrap().iso(), "2022-04-03");
}

#[test]
fn calendar_validity() {
    assert!(Date::new(2023, 2, 29).is_none());
    assert!(Date::new(2000, 2, 29).is_some());
    assert!(Date::new(1900, 2, 29).is_none());
    assert!(Date::new(2022, 4, 31).is_none());
    assert!(Date::new(2022, 13, 1).is_none());
    assert!(Date::new(10000, 1, 1).is_none());
    assert_eq!(Date::new(7, 3, 9).unwrap().iso(), "0007-03-09");
    assert_eq!(Date::new(9999, 12, 31).unwrap().iso(), "9999-12-31");
}
