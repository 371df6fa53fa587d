use which_workspace::error::FilterError;
use which_workspace::settings::PaginationLimits;
use which_workspace::settings::Pagination;
use which_workspace::settings::parse_u32;

#[test]
fn parses_plain_numbers() {
    assert_eq!(parse_u32("0").unwrap(), 0);
    assert_eq!(parse_u32("1").unwrap(), 1);
    assert_eq!(parse_u32("42").unwrap(), 42);
    assert_eq!(parse_u32("20").unwrap(), 20);
}

#[test]
fn parses_leading_zeros() {
    assert_eq!(parse_u32("007").unwrap(), 7);
    assert_eq!(parse_u32("000").unwrap(), 0);
}

#[test]
fn parses_the_largest_value() {
    assert_eq!(parse_u32("4294967295").unwrap(), u32::MAX);
}

#[test]
fn rejects_a_value_too_large() {
    assert!(matches!(parse_u32("4294967296"), Err(FilterError::Int(_))));
    assert!(matches!(parse_u32("99999999999"), Err(FilterError::Int(_))));
}

#[test]
fn rejects_empty_text() {
    assert!(matches!(parse_u32(""), Err(FilterError::Int(_))));
}

#[test]
fn rejects_non_digits() {
    assert!(matches!(parse_u32("12a"), Err(FilterError::Int(_))));
    assert!(matches!(parse_u32("-1"), Err(FilterError::Int(_))));
    assert!(matches!(parse_u32("+1"), Err(FilterError::Int(_))));
    assert!(matches!(parse_u32("1 "), Err(FilterError::Int(_))));
}

#[test]
fn error_carries_a_message() {
    let e = parse_u32("abc").unwrap_err();
    assert!(!e.message().is_empty());
}

#[test]
fn resolves_all_three_pagination_fields() {
    let p = Pagination {
        start_page: "1".to_string(),
        max_depth: "0".to_string(),
        page_size: "20".to_string(),
    };
    assert_eq!(
        p.resolve().unwrap(),
        PaginationLimits { start_page: 1, max_depth: 0, page_size: 20 }
    );
}

#[test]
fn an_unparsable_pagination_field_is_fatal() {
    let p = Pagination {
        start_page: "1".to_string(),
        max_depth: "many".to_string(),
        page_size: "20".to_string(),
    };
    assert!(matches!(p.resolve(), Err(FilterError::Int(_))));
}
