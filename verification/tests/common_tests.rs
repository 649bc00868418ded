use std::str::FromStr;
use wg_conf::common::{parse_auth_type, AuthType, AuthTypeParseError};

#[test]
fn test_from_ascii() {
    let test_string = "bearer";
    let auth_type = AuthType::from_str(test_string);
    assert_eq!(AuthType::Bearer, auth_type.unwrap())
}

#[test]
fn auth_type_names_ignore_ascii_case() {
    assert_eq!(parse_auth_type("BASIC"), Ok(AuthType::Basic));
    assert_eq!(parse_auth_type("bAsIc"), Ok(AuthType::Basic));
    assert_eq!(parse_auth_type("Bearer"), Ok(AuthType::Bearer));
}

#[test]
fn auth_type_unknown_names_are_refused() {
    assert_eq!(parse_auth_type("Digest"), Err(AuthTypeParseError::VariantNotFound));
    assert_eq!(parse_auth_type(""), Err(AuthTypeParseError::VariantNotFound));
    assert_eq!(parse_auth_type("Basic "), Err(AuthTypeParseError::VariantNotFound));
    assert_eq!(parse_auth_type("Bas"), Err(AuthTypeParseError::VariantNotFound));
}

#[test]
fn auth_type_name_round_trip() {
    for t in [AuthType::Basic, AuthType::Bearer] {
        assert_eq!(parse_auth_type(t.to_string().as_str()), Ok(t));
    }
    assert_eq!(AuthType::Basic.to_string(), "Basic");
    assert_eq!(AuthType::Bearer.to_string(), "Bearer");
}
