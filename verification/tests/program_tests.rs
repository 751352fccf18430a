use intcode::program::IntCodeProgram;

#[test]
fn test_from_string() {
    let program = IntCodeProgram::from_string(String::from("1,0,0,0,99")).unwrap();
    assert_eq!(vec![1, 0, 0, 0, 99], program.program);
}

#[test]
fn test_from_string_negative_values() {
    let program = IntCodeProgram::from_string(String::from("-1,100,-42")).unwrap();
    assert_eq!(vec![-1, 100, -42], program.program);
}

#[test]
fn test_from_string_single_token() {
    let program = IntCodeProgram::from_string(String::from("99")).unwrap();
    assert_eq!(vec![99], program.program);
}

#[test]
fn test_from_string_extreme_values() {
    let program = IntCodeProgram::from_string(String::from(
        "9223372036854775807,-9223372036854775808",
    ))
    .unwrap();
    assert_eq!(vec![i64::MAX, i64::MIN], program.program);
}

#[test]
fn test_from_string_empty_is_malformed() {
    assert!(IntCodeProgram::from_string(String::new()).is_none());
}

#[test]
fn test_from_string_empty_token_is_malformed() {
    assert!(IntCodeProgram::from_string(String::from("1,,2")).is_none());
}

#[test]
fn test_from_string_trailing_comma_is_malformed() {
    assert!(IntCodeProgram::from_string(String::from("1,2,")).is_none());
}

#[test]
fn test_from_string_stray_character_is_malformed() {
    assert!(IntCodeProgram::from_string(String::from("1,2x,3")).is_none());
}

#[test]
fn test_from_string_bare_sign_is_malformed() {
    assert!(IntCodeProgram::from_string(String::from("-,1")).is_none());
}

#[test]
fn test_from_string_plus_sign_is_malformed() {
    assert!(IntCodeProgram::from_string(String::from("+5")).is_none());
}

#[test]
fn test_from_string_out_of_range_is_malformed() {
    assert!(IntCodeProgram::from_string(String::from("9223372036854775808")).is_none());
    assert!(IntCodeProgram::from_string(String::from("-9223372036854775809")).is_none());
}
