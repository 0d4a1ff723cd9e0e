use repo_stats::dates::{day_number, push_date};
use repo_stats::text::{push_decimal, push_digit};

#[test]
fn decimal_digits() {
    let mut s = String::from("n=");
    push_decimal(&mut s, 0);
    assert_eq!(s, "n=0");
    let mut s = String::new();
    push_decimal(&mut s, 1234567890);
    assert_eq!(s, "1234567890");
    let mut s = String::new();
    push_decimal(&mut s, u64::MAX as u128);
    assert_eq!(s, "18446744073709551615");
    push_digit(&mut s, 7);
    assert_eq!(s, "184467440737095516157");
    let mut s = String::new();
    push_decimal(&mut s, u128::MAX);
    assert_eq!(s, "340282366920938463463374607431768211455");
}

#[test]
fn days_of_instants() {
    assert_eq!(day_number(0), 0);
    assert_eq!(day_number(86399), 0);
    assert_eq!(day_number(86400), 1);
    assert_eq!(day_number(-1), -1);
    assert_eq!(day_number(-86400), -1);
    assert_eq!(day_number(-86401), -2);
    assert_eq!(day_number(1_700_000_000), 19675);
}

#[test]
fn dates_of_days() {
    let mut s = String::new();
    push_date(&mut s, 0);
    assert_eq!(s, "1970-01-01");
    let mut s = String::from("on ");
    push_date(&mut s, 13036);
    assert_eq!(s, "on 2005-09-10");
    let mut s = String::new();
    push_date(&mut s, -1);
    assert_eq!(s, "1969-12-31");
    let mut s = String::new();
    push_date(&mut s, 19675);
    assert_eq!(s, "2023-11-14");
    let mut s = String::new();
    push_date(&mut s, -96_465_292);
    assert_eq!(s, "-262143-01-01");
    let mut s = String::new();
    push_date(&mut s, 95_026_236);
    assert_eq!(s, "+262142-12-31");
}
