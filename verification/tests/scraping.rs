use stock_alerts::scraping::{convert_to_amount, get_stock_value, ExtractionError};

#[test]
fn extracts_quote_from_document() {
    let document = "<html><body><span class=\"kabuka\">2,500円</span></body></html>".to_string();
    assert_eq!(get_stock_value(document), Ok(2500));
}

#[test]
fn extracts_only_first_matching_element() {
    let document = "<html><body>\
        <span class=\"kabuka\">1,234円</span>\
        <span class=\"kabuka\">9,999円</span>\
        </body></html>"
        .to_string();
    assert_eq!(get_stock_value(document), Ok(1234));
}

#[test]
fn no_matching_element_is_no_match_error() {
    let document = "<html><body><span class=\"price\">2,500円</span></body></html>".to_string();
    assert_eq!(get_stock_value(document), Err(ExtractionError::NoMatch));
}

#[test]
fn non_numeric_quote_text_is_numeric_format_error() {
    let document = "<html><body><span class=\"kabuka\">n/a</span></body></html>".to_string();
    assert_eq!(get_stock_value(document), Err(ExtractionError::NumericFormat));
}

#[test]
fn plain_integer_parses() {
    assert_eq!(convert_to_amount("2500".to_string()), Ok(2500));
}

#[test]
fn currency_glyph_and_commas_are_stripped() {
    assert_eq!(convert_to_amount("1,234,567円".to_string()), Ok(1234567));
}

#[test]
fn fraction_below_half_rounds_down() {
    assert_eq!(convert_to_amount("149.4".to_string()), Ok(149));
}

#[test]
fn fraction_of_half_rounds_up() {
    assert_eq!(convert_to_amount("149.5".to_string()), Ok(150));
}

#[test]
fn long_fraction_rounds_by_first_digit() {
    assert_eq!(convert_to_amount("1234.4999".to_string()), Ok(1234));
    assert_eq!(convert_to_amount("1234.501".to_string()), Ok(1235));
}

#[test]
fn trailing_dot_and_leading_dot_parse() {
    assert_eq!(convert_to_amount("5.".to_string()), Ok(5));
    assert_eq!(convert_to_amount(".5".to_string()), Ok(1));
    assert_eq!(convert_to_amount(".4".to_string()), Ok(0));
}

#[test]
fn empty_and_dot_only_are_errors() {
    assert_eq!(
        convert_to_amount("".to_string()),
        Err(ExtractionError::NumericFormat)
    );
    assert_eq!(
        convert_to_amount(".".to_string()),
        Err(ExtractionError::NumericFormat)
    );
    assert_eq!(
        convert_to_amount("円".to_string()),
        Err(ExtractionError::NumericFormat)
    );
}

#[test]
fn letters_and_double_dots_are_errors() {
    assert_eq!(
        convert_to_amount("12a4".to_string()),
        Err(ExtractionError::NumericFormat)
    );
    assert_eq!(
        convert_to_amount("1.2.3".to_string()),
        Err(ExtractionError::NumericFormat)
    );
    assert_eq!(
        convert_to_amount("-5".to_string()),
        Err(ExtractionError::NumericFormat)
    );
}

#[test]
fn values_beyond_i32_are_errors() {
    assert_eq!(convert_to_amount("2147483647".to_string()), Ok(i32::MAX));
    assert_eq!(
        convert_to_amount("2147483647.5".to_string()),
        Err(ExtractionError::NumericFormat)
    );
    assert_eq!(
        convert_to_amount("2147483648".to_string()),
        Err(ExtractionError::NumericFormat)
    );
    assert_eq!(
        convert_to_amount("99999999999999999999".to_string()),
        Err(ExtractionError::NumericFormat)
    );
}
