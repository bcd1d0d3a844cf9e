//! Colours, the resolver's state, and lookups of typed fields.
use vstd::prelude::*;
use vstd::string::StringExecFns;
use crate::config::{entries_view, Section, Value};
use crate::map::OrderedMap;

verus! {

/// An RGB triple.
#[derive(Clone, Copy, Debug, PartialEq, Eq, Structural)]
pub struct Color(pub u8, pub u8, pub u8);

/// The colour that a value writes: a hexadecimal `0xRRGGBB` or an RGB triple.
pub open spec fn color_of_value(v: Value) -> Option<Color> {
    match v {
        Value::Hex(h) => Some(
            Color(((h / 0x10000) % 0x100) as u8, ((h / 0x100) % 0x100) as u8, (h % 0x100) as u8),
        ),
        Value::RGB(r, g, b) => Some(Color(r, g, b)),
        _ => None,
    }
}

/// What a resolution has gathered: resolved colours, and the raw values of
/// the `defined` section.
#[derive(Debug)]
pub struct State {
    pub colors: OrderedMap<Color>,
    pub defined: OrderedMap<Value>,
}

impl State {
    pub fn new() -> (r: State)
        ensures
            r.colors@.len() == 0,
            r.defined@.len() == 0,
            r.defined.0@.len() == 0,
    {
        State { colors: OrderedMap::new(), defined: OrderedMap::new() }
    }
}

/// Why a section could not be processed.
#[derive(Debug)]
pub enum Error {
    ExpectedColor(Value),
    UnknownSection(String),
}

/// The result of looking up a typed field: the value, the kind that was
/// expected where the field holds another kind, or nothing.
#[derive(Debug, PartialEq, Eq)]
pub enum GetResult<T> {
    Found(T),
    Expected(String),
    NotFound,
}

pub open spec fn expected_message(kind: Seq<char>, name: Seq<char>) -> Seq<char> {
    "expected "@ + kind + " for "@ + name
}

pub open spec fn missing_message(name: Seq<char>) -> Seq<char> {
    name + " needs a value"@
}

impl<T> GetResult<T> {
    /// The value, or a message that names the field.
    pub fn to_result(self, name: &str) -> (r: Result<T, String>)
        ensures
            match self {
                GetResult::Found(v) => r == Ok::<T, String>(v),
                GetResult::Expected(k) => r matches Err(m) && m@ == expected_message(k@, name@),
                GetResult::NotFound => r matches Err(m) && m@ == missing_message(name@),
            },
    {
        match self {
            GetResult::Found(v) => Ok(v),
            GetResult::Expected(k) => {
                let mut m = String::from_str("expected ");
                m.append(k.as_str());
                m.append(" for ");
                m.append(name);
                Err(m)
            },
            GetResult::NotFound => {
                let mut m = name.to_owned();
                m.append(" needs a value");
                Err(m)
            },
        }
    }

    /// The value, if there is one.
    pub fn to_option(self) -> (r: Option<T>)
        ensures
            match self {
                GetResult::Found(v) => r == Some(v),
                _ => r is None,
            },
    {
        match self {
            GetResult::Found(v) => Some(v),
            _ => None,
        }
    }
}

/// The colour that a value writes, or the value back in an error.
pub fn expect_color(value: &Value) -> (r: Result<Color, Error>)
    ensures
        match color_of_value(*value) {
            Some(c) => r == Ok::<Color, Error>(c),
            None => r matches Err(Error::ExpectedColor(v)) && v@ == value@,
        },
{
    match value {
        Value::Hex(h) => {
            let h = *h;
            assert((h & 0xff0000) >> 16u32 == (h / 0x10000) % 0x100) by (bit_vector);
            assert((h & 0x00ff00) >> 8u32 == (h / 0x100) % 0x100) by (bit_vector);
            assert(h & 0x0000ff == h % 0x100) by (bit_vector);
            Ok(Color(((h & 0xff0000) >> 16) as u8, ((h & 0x00ff00) >> 8) as u8, (h & 0x0000ff) as u8))
        },
        Value::RGB(r, g, b) => Ok(Color(*r, *g, *b)),
        v => Err(Error::ExpectedColor(v.duplicate())),
    }
}

impl Value {
    /// A copy of the value.
    pub fn duplicate(&self) -> (r: Value)
        ensures
            r@ == self@,
        decreases self,
    {
        match self {
            Value::Hex(h) => Value::Hex(*h),
            Value::Number(n) => Value::Number(*n),
            Value::RGB(r, g, b) => Value::RGB(*r, *g, *b),
            Value::Str(s) => Value::Str(s.clone()),
            Value::Path(p) => Value::Path(p.clone()),
            Value::Section(s) => {
                let m = duplicate_entries(&s.0);
                Value::Section(Section(m))
            },
        }
    }
}

/// A copy of a list of named values.
pub fn duplicate_entries(m: &OrderedMap<Value>) -> (r: OrderedMap<Value>)
    ensures
        entries_view(r.0@) == entries_view(m.0@),
        r@.len() == m@.len(),
        forall|i: int| 0 <= i < m@.len() ==> (#[trigger] r@[i]).0 == m@[i].0,
        forall|i: int| 0 <= i < m@.len() ==> (#[trigger] r@[i]).1@ == m@[i].1@,
    decreases m,
{
    let mut out: OrderedMap<Value> = OrderedMap::new();
    let n = m.0.len();
    let mut i: usize = 0;
    while i < n
        invariant
            n == m.0@.len(),
            i <= n,
            out.0@.len() == i,
            entries_view(out.0@) == entries_view(m.0@.subrange(0, i as int)),
            forall|k: int| 0 <= k < i ==> (#[trigger] out@[k]).0 == m@[k].0,
            forall|k: int| 0 <= k < i ==> (#[trigger] out@[k]).1@ == m@[k].1@,
        decreases n - i,
    {
        let e = &m.0[i];
        proof {
            assert(decreases_to!(m => m.0));
            assert(decreases_to!(m.0 => m.0[i as int]));
        }
        let v = e.value.duplicate();
        let ghost before = out.0@;
        out.insert(e.name.clone(), v);
        assert(out.0@.drop_last() =~= before);
        assert(m.0@.subrange(0, i + 1).drop_last() =~= m.0@.subrange(0, i as int));
        i = i + 1;
    }
    assert(m.0@.subrange(0, n as int) =~= m.0@);
    out
}

/// The lowercase hexadecimal digit of `d`, below 16.
pub open spec fn hex_digit_char(d: int) -> char {
    if d < 10 {
        ((48 + d) as u8) as char
    } else {
        ((87 + d) as u8) as char
    }
}

/// A colour written `#rrggbb`, in lowercase hexadecimal.
pub open spec fn hex_color(c: Color) -> Seq<char> {
    seq![
        '#',
        hex_digit_char(c.0 as int / 16),
        hex_digit_char(c.0 as int % 16),
        hex_digit_char(c.1 as int / 16),
        hex_digit_char(c.1 as int % 16),
        hex_digit_char(c.2 as int / 16),
        hex_digit_char(c.2 as int % 16),
    ]
}

fn digit_char(d: u8) -> (r: char)
    requires
        d < 16,
    ensures
        r == hex_digit_char(d as int),
{
    if d < 10 {
        (48 + d) as char
    } else {
        (87 + d) as char
    }
}

/// Appends the colour written `#rrggbb` to `s`.
pub fn push_hex_color(s: &mut String, c: Color)
    ensures
        final(s)@ == old(s)@ + hex_color(c),
{
    crate::text::push_char(s, '#');
    crate::text::push_char(s, digit_char(c.0 / 16));
    crate::text::push_char(s, digit_char(c.0 % 16));
    crate::text::push_char(s, digit_char(c.1 / 16));
    crate::text::push_char(s, digit_char(c.1 % 16));
    crate::text::push_char(s, digit_char(c.2 / 16));
    crate::text::push_char(s, digit_char(c.2 % 16));
    assert(s@ =~= old(s)@ + hex_color(c));
}

} // verus!
