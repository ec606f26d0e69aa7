use string_calculator::{CalcError, StringCalculator};

fn sum<T: string_calculator::NumericSummable>(input: &str) -> Result<T, CalcError> {
    StringCalculator::new().add_numbers_from_string::<T>(input.to_string())
}

#[test]
fn empty_input_is_zero_for_every_type() {
    assert_eq!(sum::<u8>(""), Ok(0));
    assert_eq!(sum::<i8>(""), Ok(0));
    assert_eq!(sum::<i16>(""), Ok(0));
    assert_eq!(sum::<u128>(""), Ok(0));
    assert_eq!(sum::<i128>(""), Ok(0));
    assert_eq!(sum::<usize>(""), Ok(0));
    assert_eq!(sum::<isize>(""), Ok(0));
    assert_eq!(sum::<u16>(""), Ok(0));
    assert_eq!(sum::<u32>(""), Ok(0));
    assert_eq!(sum::<u64>(""), Ok(0));
    assert_eq!(sum::<i32>(""), Ok(0));
    assert_eq!(sum::<i64>(""), Ok(0));
}

#[test]
fn single_number_is_its_value() {
    assert_eq!(sum::<u32>("0"), Ok(0));
    assert_eq!(sum::<u32>("42"), Ok(42));
    assert_eq!(sum::<u64>("1000"), Ok(1000));
    assert_eq!(sum::<i64>("007"), Ok(7));
    assert_eq!(sum::<u16>("999"), Ok(999));
}

#[test]
fn single_number_above_threshold_counts_as_zero() {
    assert_eq!(sum::<u32>("1001"), Ok(0));
    assert_eq!(sum::<u64>("123456789012"), Ok(0));
}

#[test]
fn two_numbers_add_in_either_order() {
    assert_eq!(sum::<u32>("7,5"), Ok(12));
    assert_eq!(sum::<u32>("5,7"), Ok(12));
    assert_eq!(sum::<i32>("1000,1000"), Ok(2000));
}

#[test]
fn plus_sign_is_read() {
    assert_eq!(sum::<u32>("+5,3"), Ok(8));
    assert_eq!(sum::<i64>("+12"), Ok(12));
}

#[test]
fn zero_tokens_do_not_change_the_sum() {
    assert_eq!(sum::<u32>("3,4"), Ok(7));
    assert_eq!(sum::<u32>("abc,3,4"), Ok(7));
    assert_eq!(sum::<u32>("3,abc,4"), Ok(7));
    assert_eq!(sum::<u32>("3,4,2000"), Ok(7));
    assert_eq!(sum::<u32>("3,,4"), Ok(7));
    assert_eq!(sum::<i32>("3, 4"), Ok(3));
}

#[test]
fn negative_numbers_are_all_listed() {
    let error = sum::<i32>("1,-2,3,-4,-5").unwrap_err();
    assert_eq!(
        error,
        CalcError::NegativeNumbers(vec!["-2".to_string(), "-4".to_string(), "-5".to_string()])
    );
    assert_eq!(error.message(), "Negative numbers not allowed: -2 -4 -5");
}

#[test]
fn single_negative_number_is_rejected() {
    let error = sum::<i64>("-5").unwrap_err();
    assert_eq!(error, CalcError::NegativeNumbers(vec!["-5".to_string()]));
    assert_eq!(error.message(), "Negative numbers not allowed: -5");
}

#[test]
fn single_malformed_number_is_an_error() {
    let error = sum::<u32>("abc").unwrap_err();
    assert_eq!(error, CalcError::Unparsable("abc".to_string()));
    assert_eq!(error.message(), "Could not parse value in given string: abc");
}

#[test]
fn single_number_too_large_for_the_type_is_an_error() {
    assert_eq!(sum::<u16>("70000"), Err(CalcError::Unparsable("70000".to_string())));
    assert_eq!(sum::<u32>("70000"), Ok(0));
}

#[test]
fn header_without_newline_is_an_error() {
    let error = sum::<u32>("//;1;2").unwrap_err();
    assert_eq!(error, CalcError::InvalidSeparatorConfig);
    assert_eq!(error.message(), "Invalid separator config");
    assert_eq!(sum::<u32>("//"), Err(CalcError::InvalidSeparatorConfig));
}

#[test]
fn header_with_nothing_after_it_is_an_error() {
    assert_eq!(sum::<u32>("//;\n"), Err(CalcError::Unparsable(String::new())));
    assert_eq!(sum::<u32>("//[sep]\n"), Err(CalcError::Unparsable(String::new())));
}

#[test]
fn custom_separator_replaces_the_comma() {
    assert_eq!(sum::<u32>("//;\n1;2,3"), Ok(1));
    assert_eq!(sum::<u64>("//[***]\n1***2\n3"), Ok(6));
}

#[test]
fn empty_brackets_declare_the_bracket_character() {
    assert_eq!(sum::<u32>("//[]\n1[2"), Ok(3));
}

#[test]
fn header_with_empty_declaration_separates_by_newline() {
    assert_eq!(sum::<u32>("//\n1\n2"), Ok(3));
}

#[test]
fn sum_that_does_not_fit_is_an_error() {
    let input = vec!["1000"; 66].join(",");
    let error = sum::<u16>(&input).unwrap_err();
    assert_eq!(error, CalcError::Overflow);
    assert_eq!(error.message(), "Sum does not fit in the requested type");
    assert_eq!(sum::<u32>(&input), Ok(66000));
    let fits = vec!["1000"; 65].join(",");
    assert_eq!(sum::<u16>(&fits), Ok(65000));
}

#[test]
fn default_calculator_sums_like_a_new_one() {
    let calculator = StringCalculator::default();
    let response: u64 = calculator.add_numbers_from_string("4\n5".to_string()).unwrap();
    assert_eq!(response, 9);
}

#[test]
fn types_below_the_threshold_keep_what_they_can_read() {
    assert_eq!(sum::<u8>("200"), Ok(200));
    assert_eq!(sum::<u8>("300"), Err(CalcError::Unparsable("300".to_string())));
    assert_eq!(sum::<u8>("200,300"), Ok(200));
    assert_eq!(sum::<u8>("200,200"), Err(CalcError::Overflow));
    assert_eq!(sum::<i8>("100,27"), Ok(127));
    assert_eq!(sum::<i8>("+5,128"), Ok(5));
}

#[test]
fn every_integer_type_sums() {
    assert_eq!(sum::<i16>("1001,999\n1"), Ok(1000));
    assert_eq!(sum::<u128>("1,2,3"), Ok(6));
    assert_eq!(sum::<i128>("1,2,3"), Ok(6));
    assert_eq!(sum::<usize>("10\n20"), Ok(30));
    assert_eq!(sum::<isize>("//;\n4;5"), Ok(9));
    assert_eq!(sum::<u64>("4,x,5"), Ok(9));
}

#[test]
fn order_of_tokens_does_not_matter() {
    assert_eq!(sum::<u32>("1,20,300,x,2000"), Ok(321));
    assert_eq!(sum::<u32>("2000,300,x,1,20"), Ok(321));
    assert_eq!(sum::<u32>("x,20,2000,1,300"), Ok(321));
}
