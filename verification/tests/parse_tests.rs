use intcode::parse::LoadError;
use intcode::parse::parse_input_token;
use intcode::parse::parse_program;
use intcode::semantics::Fault;

#[test]
fn plain_list_parses() {
    let r = parse_program(&b"1,2,3".to_vec());
    assert_eq!(r, Ok(vec![1, 2, 3]));
}

#[test]
fn whitespace_is_ignored_anywhere() {
    let r = parse_program(&b" 1 ,\n2\t,\r\n 3 ".to_vec());
    assert_eq!(r, Ok(vec![1, 2, 3]));
}

#[test]
fn signs_and_leading_zeros_parse() {
    let r = parse_program(&b"+5,-7,007".to_vec());
    assert_eq!(r, Ok(vec![5, -7, 7]));
}

#[test]
fn full_64_bit_range_parses() {
    let r = parse_program(&b"9223372036854775807,-9223372036854775808".to_vec());
    assert_eq!(r, Ok(vec![i64::MAX, i64::MIN]));
}

#[test]
fn value_past_64_bits_is_malformed() {
    let r = parse_program(&b"9223372036854775808".to_vec());
    assert_eq!(r, Err(LoadError::MalformedProgram));
    let r2 = parse_program(&b"-9223372036854775809".to_vec());
    assert_eq!(r2, Err(LoadError::MalformedProgram));
}

#[test]
fn empty_text_is_malformed() {
    let r = parse_program(&b"".to_vec());
    assert_eq!(r, Err(LoadError::MalformedProgram));
}

#[test]
fn empty_token_is_malformed() {
    let r = parse_program(&b"1,,2".to_vec());
    assert_eq!(r, Err(LoadError::MalformedProgram));
    let r2 = parse_program(&b"1,2,".to_vec());
    assert_eq!(r2, Err(LoadError::MalformedProgram));
}

#[test]
fn non_numeric_token_is_malformed() {
    let r = parse_program(&b"1,abc,2".to_vec());
    assert_eq!(r, Err(LoadError::MalformedProgram));
    let r2 = parse_program(&b"-".to_vec());
    assert_eq!(r2, Err(LoadError::MalformedProgram));
}

#[test]
fn input_line_is_trimmed() {
    let r = parse_input_token(&b" 42 \n".to_vec());
    assert_eq!(r, Ok(42));
    let r2 = parse_input_token(&b"\t-6\r\n".to_vec());
    assert_eq!(r2, Ok(-6));
}

#[test]
fn bad_input_line_is_invalid_input() {
    let r = parse_input_token(&b"x".to_vec());
    assert_eq!(r, Err(Fault::InvalidInput));
    let r2 = parse_input_token(&b"\n".to_vec());
    assert_eq!(r2, Err(Fault::InvalidInput));
    let r3 = parse_input_token(&b"4 2".to_vec());
    assert_eq!(r3, Err(Fault::InvalidInput));
}
