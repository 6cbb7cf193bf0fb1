use time::text::parse_items;
use time::{ParseError, ParsedItems, UtcOffset};

#[test]
fn parse_without_offset_directive_is_insufficient() {
    assert_eq!(UtcOffset::parse("abc", "abc"), Err(ParseError::InsufficientInformation));
    assert_eq!(UtcOffset::parse("", ""), Err(ParseError::InsufficientInformation));
}

#[test]
fn parse_rejects_malformed_offsets() {
    assert_eq!(UtcOffset::parse("0100", "%z"), Err(ParseError::InvalidOffset));
    assert_eq!(UtcOffset::parse("+01", "%z"), Err(ParseError::InvalidOffset));
    assert_eq!(UtcOffset::parse("+01a0", "%z"), Err(ParseError::InvalidOffset));
    assert_eq!(UtcOffset::parse("+0060", "%z"), Err(ParseError::InvalidOffset));
    assert_eq!(UtcOffset::parse("+2400", "%z"), Err(ParseError::InvalidOffset));
}

#[test]
fn parse_reports_literal_mismatches() {
    assert_eq!(
        UtcOffset::parse("UTX+0100", "UTC%z"),
        Err(ParseError::UnexpectedCharacter { expected: 'C', actual: 'X' })
    );
    assert_eq!(UtcOffset::parse("+0100", "%z!"), Err(ParseError::UnexpectedEndOfString));
    assert_eq!(UtcOffset::parse("+0100!", "%z"), Err(ParseError::UnexpectedTrailingInput));
}

#[test]
fn parse_rejects_unknown_directives() {
    assert_eq!(UtcOffset::parse("+0100", "%Y"), Err(ParseError::InvalidFormatSpecifier));
    assert_eq!(UtcOffset::parse("+0100", "%z%"), Err(ParseError::InvalidFormatSpecifier));
}

#[test]
fn parsed_items_carry_the_offset() {
    let items = parse_items("+0530", "%z").unwrap();
    assert_eq!(items, ParsedItems { offset: Some(UtcOffset::minutes(330).unwrap()) });
    assert_eq!(parse_items("x", "x"), Ok(ParsedItems { offset: None }));
    assert_eq!(UtcOffset::try_from_parsed_items(items), UtcOffset::minutes(330).map_err(|_| ParseError::InvalidOffset));
    assert_eq!(
        UtcOffset::try_from_parsed_items(ParsedItems { offset: None }),
        Err(ParseError::InsufficientInformation)
    );
}
