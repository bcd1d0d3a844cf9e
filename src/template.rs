//! Templates: a header, then text with placeholders that name colours.
use vstd::prelude::*;
use crate::color::{hex_color, push_hex_color, Color};
use crate::map::{lookup, OrderedMap};
use vstd::string::StringExecFns;

verus! {

/// A piece of a template: literal text, or a placeholder with the names it
/// may stand for, in order of preference.
#[derive(Debug, PartialEq, Eq)]
pub enum Part {
    Str(String),
    Input(Vec<String>),
}

/// A part as a mathematical value.
pub enum PartV {
    Str(Seq<char>),
    Input(Seq<Seq<char>>),
}

pub open spec fn strings_view(v: Seq<String>) -> Seq<Seq<char>> {
    v.map_values(|s: String| s@)
}

impl Part {
    pub open spec fn view(&self) -> PartV {
        match self {
            Part::Str(s) => PartV::Str(s@),
            Part::Input(v) => PartV::Input(strings_view(v@)),
        }
    }
}

pub open spec fn parts_view(v: Seq<Part>) -> Seq<PartV> {
    v.map_values(|p: Part| p@)
}

/// The header of a template: its names, and where its output goes and how
/// it is applied, each written with parts.
#[derive(Debug)]
pub struct TemplateHeader {
    pub name: Vec<String>,
    pub output: Option<Vec<Part>>,
    pub apply: Option<Vec<Part>>,
}

/// A parsed template.
#[derive(Debug)]
pub struct Template {
    pub header: TemplateHeader,
    pub parts: Vec<Part>,
}

/// The colour of the first of the names that the table holds.
pub open spec fn first_color(alts: Seq<Seq<char>>, colors: Seq<(Seq<char>, Color)>) -> Option<Color>
    decreases alts.len(),
{
    if alts.len() == 0 {
        None
    } else {
        match lookup(colors, alts[0]) {
            Some(c) => Some(c),
            None => first_color(alts.drop_first(), colors),
        }
    }
}

/// The text of the parts, each placeholder replaced by the colour of its
/// first name in the table, written `#rrggbb`; `None` where a placeholder
/// names no colour of the table.
pub open spec fn render(parts: Seq<PartV>, colors: Seq<(Seq<char>, Color)>) -> Option<Seq<char>>
    decreases parts.len(),
{
    if parts.len() == 0 {
        Some(Seq::empty())
    } else {
        match render(parts.drop_last(), colors) {
            None => None,
            Some(t) => match parts.last() {
                PartV::Str(s) => Some(t + s),
                PartV::Input(alts) => match first_color(alts, colors) {
                    Some(c) => Some(t + hex_color(c)),
                    None => None,
                },
            },
        }
    }
}

/// A template renders to nothing as soon as one of its placeholders names
/// no colour of the table.
pub proof fn lemma_missing_placeholder(parts: Seq<PartV>, colors: Seq<(Seq<char>, Color)>, i: int)
    requires
        0 <= i < parts.len(),
        parts[i] matches PartV::Input(alts) && first_color(alts, colors) is None,
    ensures
        render(parts, colors) is None,
{
    assert(parts.take(i + 1).drop_last() =~= parts.take(i));
    assert(parts.take(i + 1).last() == parts[i]);
    lemma_render_none(parts, i + 1, colors);
}

proof fn lemma_render_none(ps: Seq<PartV>, i: int, colors: Seq<(Seq<char>, Color)>)
    requires
        0 <= i <= ps.len(),
        render(ps.take(i), colors) is None,
    ensures
        render(ps, colors) is None,
    decreases ps.len() - i,
{
    if i < ps.len() {
        assert(ps.take(i + 1).drop_last() =~= ps.take(i));
        lemma_render_none(ps, i + 1, colors);
    } else {
        assert(ps.take(i) =~= ps);
    }
}

/// The colour of the first name of `alts` that the table holds.
fn find_color(alts: &Vec<String>, map: &OrderedMap<Color>) -> (r: Option<Color>)
    ensures
        r == first_color(strings_view(alts@), map@),
{
    let ghost all = strings_view(alts@);
    let n = alts.len();
    let mut i: usize = 0;
    assert(all.skip(0) =~= all);
    while i < n
        invariant
            n == alts@.len(),
            all == strings_view(alts@),
            i <= n,
            first_color(all, map@) == first_color(all.skip(i as int), map@),
        decreases n - i,
    {
        assert(all.skip(i as int).drop_first() =~= all.skip(i + 1));
        match map.get(alts[i].as_str()) {
            Some(c) => {
                return Some(*c);
            },
            None => {},
        }
        i = i + 1;
    }
    None
}

/// Renders the parts against a colour table: literal text as it is, each
/// placeholder as the colour of its first name that the table holds. `None`
/// where a placeholder names no colour of the table.
pub fn process_parts(parts: Vec<Part>, map: &OrderedMap<Color>) -> (r: Option<String>)
    ensures
        match render(parts_view(parts@), map@) {
            Some(t) => r matches Some(s) && s@ == t,
            None => r is None,
        },
{
    let ghost ps = parts_view(parts@);
    let mut out = String::new();
    let n = parts.len();
    let mut i: usize = 0;
    assert(ps.take(0) =~= Seq::<PartV>::empty());
    while i < n
        invariant
            n == parts@.len(),
            ps == parts_view(parts@),
            i <= n,
            render(ps.take(i as int), map@) == Some(out@),
        decreases n - i,
    {
        assert(ps.take(i + 1).drop_last() =~= ps.take(i as int));
        assert(ps.take(i + 1).last() == parts@[i as int]@);
        match &parts[i] {
            Part::Str(s) => {
                out.append(s.as_str());
            },
            Part::Input(alts) => {
                match find_color(alts, map) {
                    Some(c) => {
                        push_hex_color(&mut out, c);
                    },
                    None => {
                        proof {
                            lemma_render_none(ps, i + 1, map@);
                        }
                        return None;
                    },
                }
            },
        }
        i = i + 1;
    }
    assert(ps.take(n as int) =~= ps);
    Some(out)
}

/// The names of the first placeholder that names no colour of the table.
pub fn missing_input(parts: &Vec<Part>, map: &OrderedMap<Color>) -> (r: Option<Vec<String>>)
    ensures
        r is None <==> render(parts_view(parts@), map@) is Some,
        r matches Some(alts) ==> exists|i: int|
            0 <= i < parts@.len() && #[trigger] parts_view(parts@)[i] == PartV::Input(strings_view(alts@))
                && first_color(strings_view(alts@), map@) is None && forall|k: int|
                0 <= k < i ==> !(#[trigger] parts_view(parts@)[k] matches PartV::Input(a) && first_color(
                    a,
                    map@,
                ) is None),
{
    let ghost ps = parts_view(parts@);
    let n = parts.len();
    let mut i: usize = 0;
    assert(ps.take(0) =~= Seq::<PartV>::empty());
    while i < n
        invariant
            n == parts@.len(),
            ps == parts_view(parts@),
            i <= n,
            render(ps.take(i as int), map@) is Some,
            forall|k: int| 0 <= k < i ==> !(#[trigger] ps[k] matches PartV::Input(a) && first_color(a, map@) is None),
        decreases n - i,
    {
        assert(ps.take(i + 1).drop_last() =~= ps.take(i as int));
        assert(ps.take(i + 1).last() == parts@[i as int]@);
        match &parts[i] {
            Part::Str(_) => {},
            Part::Input(alts) => {
                if find_color(alts, map).is_none() {
                    let mut copy: Vec<String> = Vec::new();
                    let m = alts.len();
                    let mut j: usize = 0;
                    while j < m
                        invariant
                            m == alts@.len(),
                            j <= m,
                            strings_view(copy@) == strings_view(alts@).take(j as int),
                        decreases m - j,
                    {
                        let ghost before = copy@;
                        let item = alts[j].clone();
                        assert(item@ == alts@[j as int]@);
                        copy.push(item);
                        assert(strings_view(copy@) =~= strings_view(before).push(item@));
                        assert(strings_view(alts@).take(j + 1) =~= strings_view(alts@).take(j as int).push(
                            item@,
                        ));
                        j = j + 1;
                    }
                    assert(strings_view(alts@).take(m as int) =~= strings_view(alts@));
                    assert(ps[i as int] == PartV::Input(strings_view(copy@)));
                    proof {
                        lemma_missing_placeholder(ps, map@, i as int);
                    }
                    return Some(copy);
                }
            },
        }
        i = i + 1;
    }
    assert(ps.take(n as int) =~= ps);
    None
}

} // verus!
