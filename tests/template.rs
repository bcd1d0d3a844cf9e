use themer::color::Color;
use themer::map::OrderedMap;
use themer::template::{missing_input, process_parts, Part};
use themer::template_parser::{Error, Parser};

fn table() -> OrderedMap<Color> {
    let mut m = OrderedMap::new();
    m.insert("foreground".to_string(), Color(1, 2, 3));
    m
}

#[test]
fn substitution_uses_the_first_present_name() {
    let t = Parser::new("---\nname: t\n---\nfg={foreground|fg}").parse().unwrap();
    assert_eq!(t.header.name, vec!["t".to_string()]);
    assert_eq!(
        t.parts,
        vec![Part::Str("fg=".into()), Part::Input(vec!["foreground".into(), "fg".into()])]
    );
    assert_eq!(process_parts(t.parts, &table()), Some("fg=#010203".to_string()));
}

#[test]
fn substitution_without_any_present_name_gives_nothing() {
    let t = Parser::new("---\nname: t\n---\nfg={foreground|fg}").parse().unwrap();
    let empty: OrderedMap<Color> = OrderedMap::new();
    assert_eq!(missing_input(&t.parts, &empty), Some(vec!["foreground".to_string(), "fg".to_string()]));
    assert_eq!(process_parts(t.parts, &empty), None);
}

#[test]
fn later_alternative_is_used_when_the_first_is_missing() {
    let t = Parser::new("---\nname: t\n---\n{ bg | foreground }!").parse().unwrap();
    assert_eq!(missing_input(&t.parts, &table()), None);
    assert_eq!(process_parts(t.parts, &table()), Some("#010203!".to_string()));
}

#[test]
fn header_with_output_and_apply_lines() {
    let spaced = Parser::new("---\nname: a, b\noutput: ~/{foreground}.txt\napply: run\n---\nbody").parse();
    assert_eq!(spaced.unwrap_err(), Error::InvalidHeader);
    let t = Parser::new("---\nname: a,b\noutput: ~/{foreground}.txt\napply: run\n---\nbody")
        .parse()
        .unwrap();
    assert_eq!(t.header.name, vec!["a".to_string(), "b".to_string()]);
    assert_eq!(
        t.header.output,
        Some(vec![
            Part::Str("~/".into()),
            Part::Input(vec!["foreground".into()]),
            Part::Str(".txt".into())
        ])
    );
    assert_eq!(t.header.apply, Some(vec![Part::Str("run".into())]));
    assert_eq!(t.parts, vec![Part::Str("body".into())]);
}

#[test]
fn header_must_start_with_dashes() {
    assert_eq!(Parser::new("name: t\n---\n").parse().unwrap_err(), Error::InvalidHeader);
}

#[test]
fn header_needs_a_closing_delimiter() {
    assert_eq!(Parser::new("---\nname: t\n--x").parse().unwrap_err(), Error::InvalidHeader);
}

#[test]
fn header_needs_a_name() {
    assert_eq!(Parser::new("---\n---\nbody").parse().unwrap_err(), Error::InvalidHeader);
}

#[test]
fn header_key_needs_a_colon() {
    assert_eq!(Parser::new("---\nname t\n---\n").parse().unwrap_err(), Error::InvalidHeader);
}

#[test]
fn empty_header_key_is_invalid() {
    assert_eq!(Parser::new("---\n: t\n---\n").parse().unwrap_err(), Error::InvalidHeader);
}

#[test]
fn unterminated_placeholder_is_invalid() {
    assert_eq!(Parser::new("---\nname: t\n---\n{foreground").parse().unwrap_err(), Error::InvalidInput);
}

#[test]
fn bad_placeholder_in_header_line_is_invalid() {
    assert_eq!(
        Parser::new("---\nname: t\noutput: {a b}\n---\n").parse().unwrap_err(),
        Error::InvalidInput
    );
}

#[test]
fn parse_header_alone() {
    let mut p = Parser::new("---\nname: t\n---\nrest");
    let h = p.parse_header().unwrap();
    assert_eq!(h.name, vec!["t".to_string()]);
    assert_eq!(p.parse_parts().unwrap(), vec![Part::Str("rest".into())]);
}

#[test]
fn unknown_header_key_is_ignored_with_its_line() {
    let mut p = Parser::new("---\nname: a,b\ncolor: x\n---\n");
    let h = p.parse_header().unwrap();
    assert_eq!(h.name, vec!["a".to_string(), "b".to_string()]);
    assert_eq!(h.output, None);
    assert_eq!(h.apply, None);
}

#[test]
fn empty_placeholder_is_invalid() {
    assert_eq!(Parser::new("---\nname: t\n---\n{}").parse().unwrap_err(), Error::InvalidInput);
    assert_eq!(Parser::new("---\nname: t\n---\n{a|}").parse().unwrap_err(), Error::InvalidInput);
}

#[test]
fn opening_delimiter_keeps_the_next_character() {
    let t = Parser::new("---name: t\n---\nx").parse().unwrap();
    assert_eq!(t.header.name, vec!["t".to_string()]);
    assert_eq!(t.parts, vec![Part::Str("x".into())]);
}
