use themer::builder::{Error, Part, Template, TemplateBuilder};

#[test]
fn header() {
    let mut tb = TemplateBuilder::new();
    tb.parse("---\nname: myname\noutput: output\n---\n").unwrap();
    assert_eq!(tb.name, Some(vec!["myname".to_owned()]));
    assert_eq!(tb.output, Some("output".to_owned()));
}

#[test]
fn builder_splits_names_on_commas() {
    let mut tb = TemplateBuilder::new();
    tb.parse("---\nname: a,b\n---\nbody").unwrap();
    assert_eq!(tb.name, Some(vec!["a".to_owned(), "b".to_owned()]));
    assert_eq!(tb.output, None);
}

#[test]
fn builder_needs_two_delimiters() {
    let mut tb = TemplateBuilder::new();
    assert_eq!(tb.parse("---\nname: a\n"), Err(Error::InvalidHeader));
    assert_eq!(tb.name, None);
}

#[test]
fn builder_refuses_unknown_keys_and_keeps_earlier_fields() {
    let mut tb = TemplateBuilder::new();
    assert_eq!(tb.parse("---\nname: a\ncolor: b\n---\n"), Err(Error::InvalidHeader));
    assert_eq!(tb.name, Some(vec!["a".to_owned()]));
}

#[test]
fn builder_refuses_a_line_without_colon() {
    let mut tb = TemplateBuilder::new();
    assert_eq!(tb.parse("------"), Err(Error::InvalidHeader));
}

#[test]
fn builder_template_holds_its_fields() {
    let t = Template::new(vec!["n".to_owned()], "o".to_owned(), vec![Part::Buf("x".to_owned())]);
    assert_eq!(t.name, vec!["n".to_owned()]);
    assert_eq!(t.output, "o");
    assert_eq!(t.parts, vec![Part::Buf("x".to_owned())]);
}
