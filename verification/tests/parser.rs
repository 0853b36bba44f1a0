use capgate::numeric::i32_to_decimal;
use capgate::numeric::parse_decimal_u32;
use capgate::numeric::u32_to_decimal;
use capgate::parser::extract_ids;

fn strings(items: &[&str]) -> Vec<String> {
    items.iter().map(|s| s.to_string()).collect()
}

#[test]
fn extracts_matches_in_source_order() {
    let text = "[TOO] Descriptor cluster [1]: 6 (unsigned)\n\
                plain noise line\n\
                [TOO] Descriptor cluster [2]: 768 (unsigned)\n\
                [TOO] Descriptor cluster [3]: 999 (unsigned)\n";
    assert_eq!(extract_ids(text), strings(&["6", "768", "999"]));
}

#[test]
fn keeps_duplicates() {
    let text = "[TOO] a [0]: 5 (x)\n[TOO] b [1]: 5 (x)\n";
    assert_eq!(extract_ids(text), strings(&["5", "5"]));
}

#[test]
fn several_matches_on_one_line() {
    let text = "[TOO] a [0]: 1 (x) [TOO] b [1]: 2 (y)";
    assert_eq!(extract_ids(text), strings(&["1", "2"]));
}

#[test]
fn one_tag_serves_later_entries_on_the_line() {
    // After the first entry the scan resumes past it; the second entry on
    // the line needs its own tag before it.
    let text = "[TOO] a [0]: 1 (x) [1]: 2 (y)";
    assert_eq!(extract_ids(text), strings(&["1"]));
}

#[test]
fn non_matching_lines_contribute_nothing() {
    assert_eq!(extract_ids(""), strings(&[]));
    assert_eq!(extract_ids("no tag [1]: 6 (x)"), strings(&[]));
    assert_eq!(extract_ids("[TOO] tag but no entry"), strings(&[]));
    assert_eq!(extract_ids("[TOO] a [1]: 6(x)"), strings(&[]));
    assert_eq!(extract_ids("[TOO] a [x]: 6 (x)"), strings(&[]));
    assert_eq!(extract_ids("[TOO] a [1] 6 (x)"), strings(&[]));
}

#[test]
fn entries_do_not_span_lines() {
    let text = "[TOO] a [1]:\n6 (x)";
    assert_eq!(extract_ids(text), strings(&[]));
}

#[test]
fn tolerates_carriage_returns() {
    let text = "[TOO] a [1]: 6 (x)\r\n[TOO] b [2]: 8 (y)\r\n";
    assert_eq!(extract_ids(text), strings(&["6", "8"]));
}

#[test]
fn tab_and_multiple_spaces_accepted() {
    let text = "[TOO] a [1]:\t 42  (x)";
    assert_eq!(extract_ids(text), strings(&["42"]));
}

#[test]
fn parse_decimal_values() {
    assert_eq!(parse_decimal_u32("0"), Some(0));
    assert_eq!(parse_decimal_u32("6"), Some(6));
    assert_eq!(parse_decimal_u32("768"), Some(768));
    assert_eq!(parse_decimal_u32("4294967295"), Some(u32::MAX));
}

#[test]
fn parse_decimal_rejections() {
    assert_eq!(parse_decimal_u32(""), None);
    assert_eq!(parse_decimal_u32("12a"), None);
    assert_eq!(parse_decimal_u32("-1"), None);
    assert_eq!(parse_decimal_u32("4294967296"), None);
    assert_eq!(parse_decimal_u32("99999999999999999999"), None);
}

#[test]
fn decimal_rendering() {
    assert_eq!(u32_to_decimal(0), "0");
    assert_eq!(u32_to_decimal(7), "7");
    assert_eq!(u32_to_decimal(1234), "1234");
    assert_eq!(u32_to_decimal(u32::MAX), "4294967295");
    assert_eq!(i32_to_decimal(0), "0");
    assert_eq!(i32_to_decimal(42), "42");
    assert_eq!(i32_to_decimal(-5), "-5");
    assert_eq!(i32_to_decimal(i32::MIN), "-2147483648");
    assert_eq!(i32_to_decimal(i32::MAX), "2147483647");
}
