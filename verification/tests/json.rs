use emu8086::json;
use emu8086::json::{JsonError, ParseInput};

#[test]
fn test_parse_string() {
    let mut data = ParseInput::from_str(r#""key""#);
    let res = json::parse_string(&mut data);
    let expected = "key".to_string();
    assert_eq!(res, Ok(expected));
}

#[test]
fn test_parse_string_error() {
    let mut data = ParseInput::from_str(r#""key"#);
    let res = json::parse_string(&mut data);
    let expected = Err(JsonError::UnclosedString(0));
    assert_eq!(res, expected);
}

#[test]
fn test_parse_bool1() {
    let mut data = ParseInput::from_str(r#"true,"#);
    let res = json::parse_bool(&mut data);
    let expected = Ok(true);
    assert_eq!(res, expected);
}

#[test]
fn test_parse_bool2() {
    let mut data = ParseInput::from_str(r#"false"#);
    let res = json::parse_bool(&mut data);
    let expected = Ok(false);
    assert_eq!(res, expected);
}
