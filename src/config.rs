//! The value tree that the parser builds from a configuration text.
use vstd::prelude::*;
use crate::map::{Entry, OrderedMap};

verus! {

/// A value of the configuration language.
#[derive(Debug, PartialEq, Eq)]
pub enum Value {
    Hex(u32),
    Number(u8),
    RGB(u8, u8, u8),
    Str(String),
    Path(String),
    Section(Section),
}

/// A block of named values, in the order they were written.
#[derive(Debug, PartialEq, Eq)]
pub struct Section(pub OrderedMap<Value>);

/// A whole configuration: named sections, in the order they were written.
#[derive(Debug, PartialEq, Eq)]
pub struct Config {
    sections: OrderedMap<Section>,
}

/// A value as a mathematical object; a section is its list of named values.
pub enum ValueV {
    Hex(u32),
    Number(u8),
    RGB(u8, u8, u8),
    Str(Seq<char>),
    Path(Seq<char>),
    Section(Seq<(Seq<char>, ValueV)>),
}

/// The named values of a list of entries.
pub open spec fn entries_view(es: Seq<Entry<Value>>) -> Seq<(Seq<char>, ValueV)>
    decreases es,
{
    if es.len() == 0 {
        Seq::empty()
    } else {
        entries_view(es.drop_last()).push((es.last().name@, value_view(es.last().value)))
    }
}

pub open spec fn value_view(v: Value) -> ValueV
    decreases v,
{
    match v {
        Value::Hex(h) => ValueV::Hex(h),
        Value::Number(n) => ValueV::Number(n),
        Value::RGB(r, g, b) => ValueV::RGB(r, g, b),
        Value::Str(s) => ValueV::Str(s@),
        Value::Path(p) => ValueV::Path(p@),
        Value::Section(s) => ValueV::Section(entries_view(s.0.0@)),
    }
}

/// The named sections of a list of entries.
pub open spec fn sections_view(es: Seq<Entry<Section>>) -> Seq<(Seq<char>, Seq<(Seq<char>, ValueV)>)> {
    es.map_values(|e: Entry<Section>| (e.name@, entries_view(e.value.0.0@)))
}

impl Value {
    pub open spec fn view(&self) -> ValueV {
        value_view(*self)
    }
}

impl Section {
    pub open spec fn view(&self) -> Seq<(Seq<char>, ValueV)> {
        entries_view(self.0.0@)
    }

    pub fn new(values: OrderedMap<Value>) -> (r: Self)
        ensures
            r.0 == values,
    {
        Section(values)
    }

    pub fn values(&self) -> (r: &OrderedMap<Value>)
        ensures
            r == self.0,
    {
        &self.0
    }
}

impl Config {
    pub closed spec fn spec_sections(&self) -> OrderedMap<Section> {
        self.sections
    }

    pub open spec fn view(&self) -> Seq<(Seq<char>, Seq<(Seq<char>, ValueV)>)> {
        sections_view(self.spec_sections().0@)
    }

    pub fn new(sections: OrderedMap<Section>) -> (r: Self)
        ensures
            r.spec_sections() == sections,
    {
        Config { sections }
    }

    pub fn sections(&self) -> (r: &OrderedMap<Section>)
        ensures
            r == self.spec_sections(),
    {
        &self.sections
    }
}

} // verus!
