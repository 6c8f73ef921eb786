use desk::decimal::{numeral, padded_numeral, power_of_ten};
use desk::money::{money_sub, pad_money, MONEY_SCALE};

#[test]
fn money_sub_is_exact_and_never_float() {
    // the report's own question: charged 300, paid 120
    assert_eq!(money_sub("300", "120", 2).as_deref(), Some("180.00"));
    assert_eq!(money_sub("300.00", "120.00", 2).as_deref(), Some("180.00"));

    // the classic float traps
    assert_eq!(money_sub("0.30", "0.10", 2).as_deref(), Some("0.20"));
    assert_eq!(money_sub("0.03", "0.01", 2).as_deref(), Some("0.02"));
    assert_eq!(money_sub("1.10", "1.00", 2).as_deref(), Some("0.10"));
    assert_eq!(money_sub("8.45", "4.35", 2).as_deref(), Some("4.10"));

    // overpayment is a real accounting state, not an error
    assert_eq!(money_sub("100.00", "150.00", 2).as_deref(), Some("-50.00"));
    // nothing charged, nothing paid
    assert_eq!(money_sub("0", "0", 2).as_deref(), Some("0.00"));
    // a missing side yields nothing shown, never a wrong number
    assert_eq!(money_sub("", "120", 2), None);
    assert_eq!(money_sub("300", "", 2), None);
    // and non-decimal input is refused rather than coerced
    assert_eq!(money_sub("N/A", "1", 2), None);
    assert_eq!(money_sub("1.0.0", "1", 2), None);

    // over scale is refused, not rounded
    assert_eq!(money_sub("1.005", "1.00", 2), None);

    // large values stay exact
    assert_eq!(
        money_sub("99999999999.99", "0.01", 2).as_deref(),
        Some("99999999999.98")
    );
}

#[test]
fn pad_money_pads_to_scale_and_never_rounds() {
    assert_eq!(pad_money("37.5", 2), "37.50");
    assert_eq!(pad_money("15", 2), "15.00");
    assert_eq!(pad_money("0", 2), "0.00");
    assert_eq!(pad_money("-3.5", 2), "-3.50");
    // already at scale: untouched
    assert_eq!(pad_money("15.00", 2), "15.00");

    // over scale is a defect to surface, not to tidy away
    assert_eq!(pad_money("1.005", 2), "1.005");
    assert_eq!(pad_money("0.999", 2), "0.999");

    // not a plain decimal: passed through rather than half-formatted
    assert_eq!(pad_money("", 2), "");
    assert_eq!(pad_money("n/a", 2), "n/a");
    assert_eq!(pad_money("$5", 2), "$5");
    assert_eq!(pad_money("1e3", 2), "1e3");

    // padding must never alter the numeric value
    for raw in ["37.5", "15", "0", "-3.5", "2.1"] {
        let padded = pad_money(raw, MONEY_SCALE);
        assert_eq!(
            raw.parse::<f64>().unwrap(),
            padded.parse::<f64>().unwrap(),
            "padding changed the value of {raw}"
        );
    }
}

#[test]
fn signs_and_white_space_are_read() {
    assert_eq!(money_sub(" +7.5\n", "-2.5", 2).as_deref(), Some("10.00"));
    assert_eq!(money_sub("-1", "-3", 1).as_deref(), Some("2.0"));
    assert_eq!(money_sub("--1", "1", 2), None);
    assert_eq!(pad_money(" 5 ", 2), "5.00");
    assert_eq!(pad_money("+5", 2), "+5");
}

#[test]
fn a_missing_whole_part_is_refused_by_subtraction_and_padded_for_display() {
    assert_eq!(money_sub(".5", "0", 2), None);
    assert_eq!(money_sub("5.", "1", 2).as_deref(), Some("4.00"));
    assert_eq!(money_sub(".", "1", 2), None);
    assert_eq!(pad_money(".5", 2), ".50");
    assert_eq!(pad_money(".", 2), ".");
    assert_eq!(pad_money("-", 2), "-");
    assert_eq!(pad_money("5.", 2), "5.00");
    assert_eq!(pad_money("-5.", 1), "-5.0");
    assert_eq!(pad_money("5.", 0), "5.");
}

#[test]
fn scale_zero_still_shows_a_place() {
    assert_eq!(money_sub("5", "3", 0).as_deref(), Some("2.0"));
    assert_eq!(money_sub("5.1", "3", 0), None);
    assert_eq!(pad_money("5", 0), "5");
}

#[test]
fn the_ends_of_the_range_are_exact() {
    let most = i128::MAX.to_string();
    let least = format!("-{most}");
    assert_eq!(
        money_sub(&most, "0", 0),
        Some(format!("{most}.0"))
    );
    assert_eq!(
        money_sub(&least, "1", 0),
        Some(format!("{}.0", i128::MIN))
    );
    assert_eq!(money_sub(&least, "2", 0), None);
    assert_eq!(money_sub(&most, "0", 1), None);
    assert_eq!(money_sub("170141183460469231731687303715884105728", "0", 0), None);
    assert_eq!(money_sub("1", "0", 38), Some(format!("1.{}", "0".repeat(38))));
    assert_eq!(money_sub("0", "0", 39), None);
}

#[test]
fn a_difference_read_back_is_what_was_taken() {
    for (a, b) in [("12.34", "0.5"), ("0", "99.99"), ("-3", "4.01"), ("7", "7")] {
        let shown = money_sub(a, b, 2).unwrap();
        assert_eq!(money_sub(&shown, "0", 2).as_deref(), Some(shown.as_str()));
        assert_eq!(pad_money(&shown, 2), shown);
        let swapped = money_sub(b, a, 2).unwrap();
        let sum = money_sub(&shown, &swapped, 2).unwrap();
        let twice = money_sub(&shown, &money_sub("0", &shown, 2).unwrap(), 2).unwrap();
        assert_eq!(sum, twice);
    }
}

#[test]
fn padding_twice_is_padding_once() {
    for raw in ["37.5", "15", "1.005", ".5", "5.", "n/a", ""] {
        let once = pad_money(raw, 3);
        assert_eq!(pad_money(&once, 3), once);
        assert!(once.starts_with(raw.trim()));
    }
}

#[test]
fn numerals_are_those_of_the_standard_library() {
    for n in [0, 1, 9, 10, 99, 100, 12345, u64::MAX as u128, u128::MAX] {
        assert_eq!(numeral(n), n.to_string());
        assert_eq!(padded_numeral(n, 7), format!("{n:07}"));
    }
    assert_eq!(power_of_ten(38), 10u128.checked_pow(38));
    assert_eq!(power_of_ten(39), None);
}

#[test]
fn only_the_least_difference_has_no_swapped_one() {
    let least = format!("-{}", i128::MAX);
    assert_eq!(money_sub("1", "3", 2).as_deref(), Some("-2.00"));
    assert_eq!(money_sub("3", "1", 2).as_deref(), Some("2.00"));
    assert!(money_sub(&least, "1", 0).is_some());
    assert_eq!(money_sub("1", &least, 0), None);
}
