use cmake_parser_derive::error::{CommandParseError, DeriveError};

#[test]
fn command_parse_error_messages() {
    assert_eq!(
        CommandParseError::MissingToken("NAME".to_string()).message(),
        "required token is missing: NAME"
    );
    assert_eq!(CommandParseError::UnknownCommand("foo".to_string()).message(), "unknown command: foo");
    assert_eq!(CommandParseError::UnknownOption("BAR".to_string()).message(), "unknown option: BAR");
    assert_eq!(
        CommandParseError::UnexpectedToken { expected: "a".to_string(), found: "b\"c".to_string() }.message(),
        "expected: \"a\", found: \"b\\\"c\""
    );
    assert_eq!(CommandParseError::TokenRequired.message(), "token required");
    assert_eq!(CommandParseError::NotFlag.message(), "flag option must have no arguments");
    assert_eq!(CommandParseError::Incomplete.message(), "all arguments must be parsed");
}

#[test]
fn derive_error_messages() {
    assert_eq!(DeriveError::UnnamedFields.message(), "unnamed fields are not supported");
    assert_eq!(DeriveError::UnitFields.message(), "unit fields are not supported");
    assert_eq!(DeriveError::Union.message(), "unions are not supported");
}
