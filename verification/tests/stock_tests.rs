use mofish::stock::{add_stock, stock_display_name, validate_stock_code};

#[test]
fn test_validate_stock_code_valid() {
    assert!(validate_stock_code("600000").is_ok());
    assert!(validate_stock_code("000001").is_ok());
    assert!(validate_stock_code("aapl").is_ok());
    assert!(validate_stock_code("12345").is_ok());
}

#[test]
fn test_validate_stock_code_empty() {
    let result = validate_stock_code("");
    assert!(result.is_err());
    assert_eq!(result.unwrap_err(), "Stock code cannot be empty");
}

#[test]
fn test_validate_stock_code_too_long() {
    let result = validate_stock_code("12345678901"); // 11 chars
    assert!(result.is_err());
    assert_eq!(result.unwrap_err(), "Stock code cannot exceed 10 characters");
}

#[test]
fn test_validate_stock_code_invalid_chars() {
    let result = validate_stock_code("600-000");
    assert!(result.is_err());
    assert_eq!(result.unwrap_err(), "Stock code must be alphanumeric");

    let result2 = validate_stock_code("600 000");
    assert!(result2.is_err());

    let result3 = validate_stock_code("ABC@123");
    assert!(result3.is_err());
}

#[test]
fn stock_code_length_counts_characters() {
    // Four CJK characters are four characters, though they take twelve bytes.
    assert!(validate_stock_code("贵州茅台").is_ok());
    assert!(validate_stock_code("一二三四五六七八九十").is_ok());
    assert_eq!(
        validate_stock_code("一二三四五六七八九十百").unwrap_err(),
        "Stock code cannot exceed 10 characters"
    );
}

#[test]
fn stock_code_checks_come_in_order() {
    assert_eq!(validate_stock_code("12345-7890x").unwrap_err(), "Stock code cannot exceed 10 characters");
    assert_eq!(validate_stock_code("600。").unwrap_err(), "Stock code must be alphanumeric");
}

#[test]
fn added_stock_gets_placeholder_name() {
    assert_eq!(add_stock("600519").unwrap(), "Stock 600519");
    assert_eq!(add_stock("").unwrap_err(), "Stock code cannot be empty");
    assert_eq!(stock_display_name("aapl"), "Stock aapl");
}
