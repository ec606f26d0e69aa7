use string_calculator::{CalcError, StringCalculator};

#[test]
fn should_return_0_when_passed_empty_string() {
    let string_calculator = StringCalculator::new();
    let response: u32 = string_calculator.add_numbers_from_string("".to_string()).unwrap();
    assert_eq!(response, 0);
}

#[test]
fn should_return_1_when_passed_1() {
    let string_calculator = StringCalculator::new();
    let response: u32 = string_calculator.add_numbers_from_string("1".to_string()).unwrap();
    assert_eq!(response, 1);
}

#[test]
fn should_return_2_when_passed_2() {
    let string_calculator = StringCalculator::new();
    let response: u32 = string_calculator.add_numbers_from_string("2".to_string()).unwrap();
    assert_eq!(response, 2);
}

#[test]
fn should_return_2_when_passed_1_and_1() {
    let string_calculator = StringCalculator::new();
    let response: u32 = string_calculator.add_numbers_from_string("1,1".to_string()).unwrap();
    assert_eq!(response, 2);
}

#[test]
fn should_return_3_when_passed_2_and_1() {
    let string_calculator = StringCalculator::new();
    let response: u32 = string_calculator.add_numbers_from_string("2,1".to_string()).unwrap();
    assert_eq!(response, 3);
}

#[test]
fn should_return_4_when_passed_2_and_2() {
    let string_calculator = StringCalculator::new();
    let response: u32 = string_calculator.add_numbers_from_string("2,2".to_string()).unwrap();
    assert_eq!(response, 4);
}

#[test]
fn should_return_5_when_passed_2_and_2_and_1() {
    let string_calculator = StringCalculator::new();
    let response: u32 = string_calculator.add_numbers_from_string("2,2,1".to_string()).unwrap();
    assert_eq!(response, 5);
}

#[test]
fn should_treat_newlines_as_seperators() {
    let string_calculator = StringCalculator::new();
    let response: u32 = string_calculator
        .add_numbers_from_string("2,2,1\n3,6,6\n3,4".to_string())
        .unwrap();
    assert_eq!(response, 27);
}

#[test]
fn should_accept_custom_separators() {
    let string_calculator = StringCalculator::new();
    let response: u32 = string_calculator
        .add_numbers_from_string("//;\n2;2;2\n2;2;2\n2;2".to_string())
        .unwrap();
    assert_eq!(response, 16);
}

#[test]
fn should_not_accept_negative_numbers() {
    let string_calculator = StringCalculator::new();
    let result = string_calculator.add_numbers_from_string::<u32>("1,-2,3,-4,-5".to_string());
    let error = result.unwrap_err();
    assert_eq!(error.message(), "Negative numbers not allowed: -2 -4 -5");
}

#[test]
fn should_ignore_numbers_larger_than_1000() {
    let string_calculator = StringCalculator::new();
    let response: u32 = string_calculator.add_numbers_from_string("1001,35".to_string()).unwrap();
    assert_eq!(response, 35);
}

#[test]
fn should_allow_arbitrary_length_custom_separators() {
    let string_calculator = StringCalculator::new();
    let response: u32 = string_calculator
        .add_numbers_from_string("//[sep]\n3sep5sep2".to_string())
        .unwrap();
    assert_eq!(response, 10);
}
