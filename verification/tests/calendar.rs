use desk::calendar::{date_at, iso_at, iso_date, today_iso, Date};

#[test]
fn today_iso_is_a_calendar_date() {
    let d = today_iso();
    let parts: Vec<&str> = d.split('-').collect();
    assert_eq!(parts.len(), 3, "expected YYYY-MM-DD, got {d}");
    assert_eq!(parts[0].len(), 4);
    let m: u32 = parts[1].parse().expect("month");
    let day: u32 = parts[2].parse().expect("day");
    assert!((1..=12).contains(&m), "month out of range in {d}");
    assert!((1..=31).contains(&day), "day out of range in {d}");
}

#[test]
fn today_is_the_clock_s() {
    let before = std::time::SystemTime::UNIX_EPOCH.elapsed().unwrap().as_secs();
    let today = today_iso();
    let after = std::time::SystemTime::UNIX_EPOCH.elapsed().unwrap().as_secs();
    assert!(today == iso_date(&date_at(before)) || today == iso_date(&date_at(after)));
    assert_ne!(today, "1970-01-01");
}

#[test]
fn days_are_counted_from_1970() {
    for (secs, text) in [
        (0, "1970-01-01"),
        (86399, "1970-01-01"),
        (86400, "1970-01-02"),
        (31 * 86400, "1970-02-01"),
        (951782400, "2000-02-29"),
        (951868800, "2000-03-01"),
        (1078012800, "2004-02-29"),
        (1735689599, "2024-12-31"),
        (1735689600, "2025-01-01"),
        (4107542400, "2100-03-01"),
        (253402300799, "9999-12-31"),
        (253402300800, "10000-01-01"),
    ] {
        assert_eq!(iso_date(&date_at(secs)), text);
    }
}

#[test]
fn the_last_second_has_a_date() {
    let date = date_at(u64::MAX);
    assert_eq!((date.year, date.month, date.day), (584554051223, 11, 9));
}

#[test]
fn consecutive_days_have_different_dates() {
    let mut last = String::new();
    for day in 0..1500 {
        let text = iso_date(&date_at(day * 86400));
        assert!(text > last, "{last} then {text}");
        assert_eq!(text.len(), 10);
        last = text;
    }
}

#[test]
fn a_date_is_filled_with_zeros() {
    assert_eq!(iso_date(&Date { year: 7, month: 3, day: 9 }), "0007-03-09");
}

#[test]
fn a_clock_before_1970_gives_its_first_day() {
    assert_eq!(iso_at(None), "1970-01-01");
    assert_eq!(iso_at(Some(951782400)), "2000-02-29");
}
