use price_crawler::crawler::parse_unit_price;
use price_crawler::store::{format_price, record_row};
use price_crawler::crawler::CrawlResult;

#[test]
fn reads_kronor_and_ore_with_unit() {
    assert_eq!(parse_unit_price("24,90 kr"), Some((24, 90)));
}

#[test]
fn reads_point_and_colon_separators() {
    assert_eq!(parse_unit_price("12.50"), Some((12, 50)));
    assert_eq!(parse_unit_price("7:05kr"), Some((7, 5)));
}

#[test]
fn ore_is_read_as_written_not_as_hundredths() {
    assert_eq!(parse_unit_price("12.5"), Some((12, 5)));
}

#[test]
fn whole_kronor_have_no_ore() {
    assert_eq!(parse_unit_price("35"), Some((35, 0)));
    assert_eq!(parse_unit_price("35 kr"), Some((35, 0)));
}

#[test]
fn surrounding_white_space_is_trimmed() {
    assert_eq!(parse_unit_price("  9,95 "), Some((9, 95)));
    assert_eq!(parse_unit_price("\u{a0}5,00\t"), Some((5, 0)));
}

#[test]
fn repeated_unit_suffix_is_cut() {
    assert_eq!(parse_unit_price("12krkr"), Some((12, 0)));
}

#[test]
fn unit_after_trailing_space_spoils_the_ore() {
    // The suffix is cut before trimming, so here it stays in the öre field.
    assert_eq!(parse_unit_price("12,50 kr "), Some((12, 0)));
}

#[test]
fn further_fields_are_ignored() {
    assert_eq!(parse_unit_price("1.2.3"), Some((1, 2)));
}

#[test]
fn plus_sign_is_accepted() {
    assert_eq!(parse_unit_price("+3,99"), Some((3, 99)));
}

#[test]
fn unreadable_kronor_give_none() {
    assert_eq!(parse_unit_price("abc"), None);
    assert_eq!(parse_unit_price("kr"), None);
    assert_eq!(parse_unit_price(""), None);
    assert_eq!(parse_unit_price(",50"), None);
    assert_eq!(parse_unit_price("-3,50"), None);
    assert_eq!(parse_unit_price("+"), None);
}

#[test]
fn kronor_beyond_u16_give_none() {
    assert_eq!(parse_unit_price("65535,00"), Some((65535, 0)));
    assert_eq!(parse_unit_price("65536,00"), None);
}

#[test]
fn unreadable_ore_count_as_zero() {
    assert_eq!(parse_unit_price("12,300"), Some((12, 0)));
    assert_eq!(parse_unit_price("12,x"), Some((12, 0)));
    assert_eq!(parse_unit_price("12,255"), Some((12, 255)));
}

#[test]
fn price_text_pads_ore_to_two_digits() {
    assert_eq!(format_price((24, 5)), "24.05");
    assert_eq!(format_price((0, 0)), "0.00");
    assert_eq!(format_price((3, 99)), "3.99");
    assert_eq!(format_price((65535, 255)), "65535.255");
}

#[test]
fn price_text_reads_back() {
    for d in [(0u16, 0u8), (1, 9), (24, 90), (100, 10), (65535, 255), (7, 100)] {
        assert_eq!(parse_unit_price(&format_price(d)), Some(d));
    }
}

#[test]
fn record_row_without_member_price() {
    let row = record_row(&CrawlResult { id: 7, price: (19, 5), member_price: None });
    assert_eq!(row.id, 7);
    assert_eq!(row.price, "19.05");
    assert_eq!(row.member_price, None);
}

#[test]
fn record_row_with_member_price() {
    let row = record_row(&CrawlResult { id: 8, price: (20, 0), member_price: Some((15, 50)) });
    assert_eq!(row.id, 8);
    assert_eq!(row.price, "20.00");
    assert_eq!(row.member_price, Some("15.50".to_string()));
}

#[test]
fn leading_white_space_never_changes_the_price() {
    for s in ["12,50", "kr", "3:05 kr", " 7", "x"] {
        assert_eq!(parse_unit_price(&format!(" {}", s)), parse_unit_price(s));
        assert_eq!(parse_unit_price(&format!("\u{3000}{}", s)), parse_unit_price(s));
    }
}

#[test]
fn trailing_unit_never_changes_the_price() {
    for s in ["12,50", "", "3:05 ", "7krkr", "abc"] {
        assert_eq!(parse_unit_price(&format!("{}kr", s)), parse_unit_price(s));
    }
}

#[test]
fn separators_stand_for_one_another() {
    for (a, b) in [("12", "50 kr"), ("7", "5"), ("", "5"), ("3", "x"), (" 9", "05:10"), ("1,2", "3"), ("abc", "")] {
        let comma = parse_unit_price(&format!("{a},{b}"));
        assert_eq!(comma, parse_unit_price(&format!("{a}.{b}")));
        assert_eq!(comma, parse_unit_price(&format!("{a}:{b}")));
    }
}
