use themer::color::{expect_color, Color, Error, GetResult, State};
use themer::config::{Section, Value};
use themer::map::OrderedMap;
use themer::parser::parse_config;
use themer::resolve::{process_config, process_section, process_state, Getter};

fn colors_of(text: &str) -> OrderedMap<Color> {
    let config = parse_config(text).unwrap();
    process_state(&config).colors
}

#[test]
fn first_insert_wins() {
    let mut m = OrderedMap::new();
    m.insert("a".to_string(), 1);
    m.insert("a".to_string(), 2);
    assert_eq!(m.get("a"), Some(&1));
    assert_eq!(m.len(), 2);
}

#[test]
fn missing_key_is_none() {
    let mut m = OrderedMap::new();
    m.insert("a".to_string(), 1);
    assert_eq!(m.get("b"), None);
}

#[test]
fn alias_declared_before_its_target() {
    let colors = colors_of("colors { a red red #ff0000 }");
    assert_eq!(colors.get("a"), Some(&Color(255, 0, 0)));
    assert_eq!(colors.get("red"), Some(&Color(255, 0, 0)));
}

#[test]
fn alias_declared_after_its_target() {
    let colors = colors_of("colors { red #ff0000 a red }");
    assert_eq!(colors.get("a"), Some(&Color(255, 0, 0)));
    assert_eq!(colors.get("red"), Some(&Color(255, 0, 0)));
}

#[test]
fn alias_chain_resolves_over_passes() {
    let colors = colors_of("colors { a b b c c #010203 }");
    assert_eq!(colors.get("a"), Some(&Color(1, 2, 3)));
    assert_eq!(colors.get("b"), Some(&Color(1, 2, 3)));
    assert_eq!(colors.get("c"), Some(&Color(1, 2, 3)));
}

#[test]
fn mutual_aliases_starve() {
    let colors = colors_of("colors { a b b a }");
    assert_eq!(colors.get("a"), None);
    assert_eq!(colors.get("b"), None);
    assert_eq!(colors.len(), 0);
}

#[test]
fn nested_palette_is_named_with_underscore() {
    let colors = colors_of("colors { special { cursor #112233 } }");
    assert_eq!(colors.get("special_cursor"), Some(&Color(0x11, 0x22, 0x33)));
    assert_eq!(colors.len(), 1);
}

#[test]
fn nested_alias_resolves() {
    let colors = colors_of("colors { base #0a0b0c special { cursor base } }");
    assert_eq!(colors.get("special_cursor"), Some(&Color(10, 11, 12)));
}

#[test]
fn end_to_end_black_and_foreground() {
    let colors = colors_of("colors { black #000000 foreground black }");
    assert_eq!(colors.len(), 2);
    assert_eq!(colors.get("black"), Some(&Color(0, 0, 0)));
    assert_eq!(colors.get("foreground"), Some(&Color(0, 0, 0)));
}

#[test]
fn rgb_entries_are_colors_and_paths_are_dropped() {
    let colors = colors_of("colors { a rgb(1, 2, 3) b /not/a/color }");
    assert_eq!(colors.get("a"), Some(&Color(1, 2, 3)));
    assert_eq!(colors.get("b"), None);
}

#[test]
fn hex_is_split_into_channels() {
    assert_eq!(expect_color(&Value::Hex(0x123456)).unwrap(), Color(0x12, 0x34, 0x56));
    assert_eq!(expect_color(&Value::RGB(7, 8, 9)).unwrap(), Color(7, 8, 9));
}

#[test]
fn non_color_value_is_an_expected_color_error() {
    match expect_color(&Value::Str("red".into())) {
        Err(Error::ExpectedColor(v)) => assert_eq!(v, Value::Str("red".into())),
        _ => panic!("expected an error"),
    }
}

#[test]
fn unknown_section_is_reported_with_its_name() {
    let mut state = State::new();
    let section = Section::new(OrderedMap::new());
    match process_section(&mut state, "Desktop", &section) {
        Err(Error::UnknownSection(n)) => assert_eq!(n, "Desktop"),
        _ => panic!("expected an unknown section"),
    }
}

#[test]
fn section_names_are_matched_whatever_their_case() {
    let config = parse_config("COLORS { black #000000 }").unwrap();
    let mut state = State::new();
    let section = config.sections().get("COLORS").unwrap();
    assert!(process_section(&mut state, "COLORS", section).unwrap().is_none());
    assert_eq!(state.colors.get("black"), Some(&Color(0, 0, 0)));
}

#[test]
fn defined_values_are_kept() {
    let config = parse_config("defined { wall /img/wall.png } colors { }").unwrap();
    let state = process_state(&config);
    assert_eq!(state.defined.get("wall"), Some(&Value::Path("/img/wall.png".into())));
}

#[test]
fn getters_fall_back_on_defined_values() {
    let config = parse_config("defined { prog xterm out ~/res } x11 { }").unwrap();
    let state = process_state(&config);
    let section = config.sections().get("x11").unwrap();
    match section.get_str(&state, "prog") {
        GetResult::Found(s) => assert_eq!(s, "xterm"),
        _ => panic!("expected a string"),
    }
    match section.get_path(&state, "out") {
        GetResult::Found(s) => assert_eq!(s, "~/res"),
        _ => panic!("expected a path"),
    }
    assert_eq!(section.get_path(&state, "prog"), GetResult::Expected("path".into()));
    assert_eq!(section.get_str(&state, "nothing"), GetResult::NotFound);
}

#[test]
fn get_color_reports_a_non_color_field() {
    let config = parse_config("x11 { black /path }").unwrap();
    let state = State::new();
    let section = config.sections().get("x11").unwrap();
    assert_eq!(section.get_color(&state, "black"), GetResult::Expected("color".into()));
    assert_eq!(section.get_color(&state, "white"), GetResult::NotFound);
}

#[test]
fn get_results_convert_to_messages() {
    assert_eq!(GetResult::Found(3).to_result("x"), Ok(3));
    assert_eq!(
        GetResult::<u8>::Expected("color".into()).to_result("cursor"),
        Err("expected color for cursor".to_string())
    );
    assert_eq!(
        GetResult::<u8>::NotFound.to_result("cursor"),
        Err("cursor needs a value".to_string())
    );
    assert_eq!(GetResult::Found(3).to_option(), Some(3));
    assert_eq!(GetResult::<u8>::NotFound.to_option(), None);
}

#[test]
fn config_gives_one_backend_per_backend_block() {
    let mut config = parse_config(
        "colors { black #000000 foreground #ffffff }
         x11 { }
         URxvt { cursor #000000 }
         desktop { method feh }",
    )
    .unwrap();
    let themes = process_config(&mut config).unwrap();
    assert_eq!(themes.len(), 2);
    assert_eq!(themes[0].program_name(), None);
    assert_eq!(themes[0].colors().get("foreground"), Some(&Color(255, 255, 255)));
    assert_eq!(themes[0].colors().get("color0"), Some(&Color(0, 0, 0)));
    assert_eq!(themes[1].program_name(), Some(&"URxvt".to_string()));
    assert_eq!(themes[1].colors().get("cursorColor"), Some(&Color(0, 0, 0)));
}

#[test]
fn x11_resources_text() {
    let mut config =
        parse_config("colors { black #000000 } xresources { program xterm foreground #0a0b0c output /tmp/x }")
            .unwrap();
    let themes = process_config(&mut config).unwrap();
    assert_eq!(themes.len(), 1);
    assert_eq!(themes[0].output(), Some(&"/tmp/x".to_string()));
    assert_eq!(
        themes[0].generated().unwrap(),
        "xterm.color0: #000000\nxterm.foreground: #0a0b0c"
    );
}

#[test]
fn x11_without_program_uses_star() {
    let mut config = parse_config("x11 { red #ff0000 }").unwrap();
    let themes = process_config(&mut config).unwrap();
    assert_eq!(themes[0].generated().unwrap(), "*.color1: #ff0000");
    assert_eq!(themes[0].available_fields().len(), 21);
}

#[test]
fn dropped_aliases_are_reported() {
    let config = parse_config("colors { a b b a c #000001 d c }").unwrap();
    let mut state = State::new();
    let section = config.sections().get("colors").unwrap();
    let dropped = themer::resolve::process_colors(&mut state, section);
    assert_eq!(
        dropped,
        vec![("a".to_string(), "b".to_string()), ("b".to_string(), "a".to_string())]
    );
    assert_eq!(state.colors.get("d"), Some(&Color(0, 0, 1)));
}

fn generated_of(text: &str) -> Vec<String> {
    let mut config = parse_config(text).unwrap();
    let themes = process_config(&mut config).unwrap();
    themes.iter().map(|t| t.generated().unwrap()).collect()
}

#[test]
fn colors_are_resolved_before_any_backend() {
    assert_eq!(generated_of("x11 { } colors { black #000000 }"), vec!["*.color0: #000000".to_string()]);
}

#[test]
fn defined_values_reach_the_backends() {
    assert_eq!(
        generated_of("defined { program foo } colors { black #000000 } x11 { }"),
        vec!["foo.color0: #000000".to_string()]
    );
}

#[test]
fn backends_come_in_order_and_unknown_blocks_are_skipped() {
    assert_eq!(
        generated_of("colors { red #ff0000 } foo { } urxvt { } x11 { }"),
        vec!["urxvt.color1: #ff0000".to_string(), "*.color1: #ff0000".to_string()]
    );
}
