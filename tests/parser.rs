use themer::config::{Config, Section, Value};
use themer::lexer::Lexer;
use themer::map::OrderedMap;
use themer::parser::{parse_config, Parser};

fn expect_value(buf: &str, expected: Value) {
    let mut lexer = Lexer::new(buf);
    let mut parser = Parser::new(&mut lexer);
    assert_eq!(parser.parse_value(), Some(expected));
}

fn expect_section(buf: &str, expected: Section) {
    let mut lexer = Lexer::new(buf);
    let mut parser = Parser::new(&mut lexer);
    assert_eq!(parser.parse_section(), Some(expected));
}

fn expect_config(buf: &str, expected: Config) {
    let mut lexer = Lexer::new(buf);
    let mut parser = Parser::new(&mut lexer);
    assert_eq!(parser.parse(), Some(expected));
}

fn value_fails(buf: &str) {
    let mut lexer = Lexer::new(buf);
    let mut parser = Parser::new(&mut lexer);
    assert_eq!(parser.parse_value(), None);
}

#[test]
fn rgb() {
    expect_value("rgb(10, 200, 230)", Value::RGB(10, 200, 230));
}

#[test]
fn section() {
    expect_section(
        "{
            method feh
            file /path/to/background
        }",
        Section::new(OrderedMap::from_pairs(vec![
            ("method".to_owned(), Value::Str("feh".into())),
            ("file".to_owned(), Value::Path("/path/to/background".into())),
        ])),
    );
}

#[test]
fn config() {
    expect_config(
        "desktop {
                method feh
                file /path/to/background
            }",
        Config::new(OrderedMap::from_pairs(vec![(
            "desktop".into(),
            Section::new(OrderedMap::from_pairs(vec![
                ("method".to_owned(), Value::Str("feh".into())),
                ("file".to_owned(), Value::Path("/path/to/background".into())),
            ])),
        )])),
    );
}

#[test]
fn two_sections() {
    expect_config(
        "desktop {
                method feh
                file /path/to/background
            }
            empty {}
            ",
        Config::new(OrderedMap::from_pairs(vec![
            (
                "desktop".into(),
                Section::new(OrderedMap::from_pairs(vec![
                    ("method".to_owned(), Value::Str("feh".into())),
                    ("file".to_owned(), Value::Path("/path/to/background".into())),
                ])),
            ),
            ("empty".into(), Section::new(OrderedMap::new())),
        ])),
    );
}

#[test]
fn rgb_with_wrong_arity_fails() {
    value_fails("rgb(10,200)");
}

#[test]
fn rgb_masks_hex_channels_to_a_byte() {
    expect_value("rgb(#1ff, 2, #a)", Value::RGB(0xff, 2, 10));
}

#[test]
fn rgb_with_string_channel_fails() {
    value_fails("rgb(1, two, 3)");
}

#[test]
fn rgb_with_number_over_a_byte_fails() {
    value_fails("rgb(1, 300, 3)");
}

#[test]
fn hex_values_round_trip() {
    expect_value("#ff00ff", Value::Hex(0xff00ff));
    expect_value("#0", Value::Hex(0));
    expect_value("#FFFFFF", Value::Hex(0xffffff));
    expect_value("#00abc", Value::Hex(0xabc));
}

#[test]
fn empty_hex_fails() {
    value_fails("# ff");
}

#[test]
fn hex_over_thirty_two_bits_fails() {
    value_fails("#123456789");
}

#[test]
fn bare_and_quoted_strings_and_paths() {
    expect_value("black", Value::Str("black".into()));
    expect_value("\"two words\"", Value::Str("two words".into()));
    expect_value("\"./rel\"", Value::Path("./rel".into()));
}

#[test]
fn value_starting_with_punctuation_fails() {
    value_fails(")");
}

#[test]
fn nested_section_value() {
    expect_value(
        "{ cursor #112233 }",
        Value::Section(Section::new(OrderedMap::from_pairs(vec![(
            "cursor".to_owned(),
            Value::Hex(0x112233),
        )]))),
    );
}

#[test]
fn unclosed_section_fails_the_whole_parse() {
    assert_eq!(parse_config("colors { black #000000 "), None);
}

#[test]
fn section_name_without_block_fails() {
    assert_eq!(parse_config("colors black"), None);
}

#[test]
fn parse_stops_at_a_non_name() {
    let config = parse_config("a { } #ff b { }").unwrap();
    assert_eq!(config.sections().len(), 1);
}

#[test]
fn repeated_keys_are_all_kept_in_order() {
    let config = parse_config("c { x #1 x #2 }").unwrap();
    let c = config.sections().get("c").unwrap();
    assert_eq!(c.values().len(), 2);
    assert_eq!(c.values().get("x"), Some(&Value::Hex(1)));
}

#[test]
fn rgb_needs_its_closing_parenthesis() {
    value_fails("rgb(1, 2, 3,");
    value_fails("rgb(1, 2, 3");
}

#[test]
fn rgb_needs_a_parameter_after_a_comma() {
    value_fails("rgb(1,2,3,)");
    value_fails("rgb()");
}
