//! The X resources backend: picks the terminal colours out of a block and
//! writes them as resource lines.
use vstd::prelude::*;
use vstd::string::StringExecFns;
use crate::color::{hex_color, push_hex_color, Color, Error, GetResult, State};
use crate::config::{Section, Value};
use crate::map::{lookup, OrderedMap};
use crate::resolve::{color_for, field_or_defined, Getter};
use crate::text::push_char;

verus! {

/// The fields of an X resources block.
pub open spec fn x11_fields() -> Seq<Seq<char>> {
    seq![
        "program"@,
        "output"@,
        "black"@,
        "red"@,
        "green"@,
        "yellow"@,
        "blue"@,
        "magenta"@,
        "cyan"@,
        "white"@,
        "bright_black"@,
        "bright_red"@,
        "bright_green"@,
        "bright_yellow"@,
        "bright_blue"@,
        "bright_magenta"@,
        "bright_cyan"@,
        "bright_white"@,
        "foreground"@,
        "background"@,
        "cursor"@,
    ]
}

/// The colour names of the configuration and the resource each one sets.
pub open spec fn color_table() -> Seq<(Seq<char>, Seq<char>)> {
    seq![
        ("black"@, "color0"@),
        ("red"@, "color1"@),
        ("green"@, "color2"@),
        ("yellow"@, "color3"@),
        ("blue"@, "color4"@),
        ("magenta"@, "color5"@),
        ("cyan"@, "color6"@),
        ("white"@, "color7"@),
        ("bright_black"@, "color8"@),
        ("bright_red"@, "color9"@),
        ("bright_green"@, "color10"@),
        ("bright_yellow"@, "color11"@),
        ("bright_blue"@, "color12"@),
        ("bright_magenta"@, "color13"@),
        ("bright_cyan"@, "color14"@),
        ("bright_white"@, "color15"@),
        ("foreground"@, "foreground"@),
        ("background"@, "background"@),
        ("cursor"@, "cursorColor"@),
    ]
}

fn color_map() -> (r: Vec<(&'static str, &'static str)>)
    ensures
        r@.map_values(|p: (&'static str, &'static str)| (p.0@, p.1@)) == color_table(),
{
    let r = vec![
        ("black", "color0"),
        ("red", "color1"),
        ("green", "color2"),
        ("yellow", "color3"),
        ("blue", "color4"),
        ("magenta", "color5"),
        ("cyan", "color6"),
        ("white", "color7"),
        ("bright_black", "color8"),
        ("bright_red", "color9"),
        ("bright_green", "color10"),
        ("bright_yellow", "color11"),
        ("bright_blue", "color12"),
        ("bright_magenta", "color13"),
        ("bright_cyan", "color14"),
        ("bright_white", "color15"),
        ("foreground", "foreground"),
        ("background", "background"),
        ("cursor", "cursorColor"),
    ];
    assert(r@.map_values(|p: (&'static str, &'static str)| (p.0@, p.1@)) =~= color_table());
    r
}

/// The resources that a block sets: for each row of the table, the colour
/// that the configuration name gives, else the one the resource name gives.
pub open spec fn picked_colors(
    sec: Seq<(Seq<char>, Value)>,
    colors: Seq<(Seq<char>, Color)>,
    table: Seq<(Seq<char>, Seq<char>)>,
) -> Seq<(Seq<char>, Color)>
    decreases table.len(),
{
    if table.len() == 0 {
        Seq::empty()
    } else {
        let rest = picked_colors(sec, colors, table.drop_last());
        let (a, b) = table.last();
        match color_for(lookup(sec, a), colors, a) {
            Some(c) => rest.push((b, c)),
            None => match color_for(lookup(sec, b), colors, b) {
                Some(c) => rest.push((b, c)),
                None => rest,
            },
        }
    }
}

/// One resource line: `program.name: #rrggbb`.
pub open spec fn resource_line(program: Seq<char>, name: Seq<char>, c: Color) -> Seq<char> {
    program + seq!['.'] + name + seq![':', ' '] + hex_color(c)
}

/// The resource lines of the colours, separated by line breaks.
pub open spec fn resource_lines(program: Seq<char>, colors: Seq<(Seq<char>, Color)>) -> Seq<char>
    decreases colors.len(),
{
    if colors.len() == 0 {
        Seq::empty()
    } else if colors.len() == 1 {
        resource_line(program, colors[0].0, colors[0].1)
    } else {
        resource_lines(program, colors.drop_last()) + seq!['\n'] + resource_line(
            program,
            colors.last().0,
            colors.last().1,
        )
    }
}

/// The X resources of a theme: the program they are for, where to write
/// them, and the colours.
#[derive(Debug)]
pub struct X11 {
    program: Option<String>,
    output: Option<String>,
    colors: OrderedMap<Color>,
}

impl X11 {
    pub closed spec fn spec_program(&self) -> Option<Seq<char>> {
        match self.program {
            Some(p) => Some(p@),
            None => None,
        }
    }

    pub closed spec fn spec_output(&self) -> Option<Seq<char>> {
        match self.output {
            Some(p) => Some(p@),
            None => None,
        }
    }

    pub closed spec fn spec_colors(&self) -> Seq<(Seq<char>, Color)> {
        self.colors@
    }

    /// Resources for every program.
    pub fn new() -> (r: Self)
        ensures
            r.spec_program() is None,
            r.spec_output() is None,
            r.spec_colors().len() == 0,
    {
        X11 { program: None, output: None, colors: OrderedMap::new() }
    }

    /// Resources for one program.
    pub fn program(program: String) -> (r: Self)
        ensures
            r.spec_program() == Some(program@),
            r.spec_output() is None,
            r.spec_colors().len() == 0,
    {
        let mut x11 = X11::new();
        x11.program = Some(program);
        x11
    }

    /// The fields that a block of this backend may hold.
    pub fn available_fields(&self) -> (r: Vec<&'static str>)
        ensures
            r@.map_values(|f: &'static str| f@) == x11_fields(),
    {
        let r = vec![
            "program",
            "output",
            "black",
            "red",
            "green",
            "yellow",
            "blue",
            "magenta",
            "cyan",
            "white",
            "bright_black",
            "bright_red",
            "bright_green",
            "bright_yellow",
            "bright_blue",
            "bright_magenta",
            "bright_cyan",
            "bright_white",
            "foreground",
            "background",
            "cursor",
        ];
        assert(r@.map_values(|f: &'static str| f@) =~= x11_fields());
        r
    }

    /// Takes the program, the output path and the colours from a block.
    pub fn create(&mut self, state: &State, section: &Section) -> (r: Result<(), Error>)
        ensures
            r is Ok,
            final(self).spec_program() == match field_or_defined(
                section.field("program"@),
                state.defined@,
                "program"@,
            ) {
                Some(Value::Str(s)) => Some(s@),
                _ => old(self).spec_program(),
            },
            final(self).spec_output() == match field_or_defined(
                section.field("output"@),
                state.defined@,
                "output"@,
            ) {
                Some(Value::Path(s)) => Some(s@),
                _ => None,
            },
            final(self).spec_colors() == old(self).spec_colors() + picked_colors(
                section.0@,
                state.colors@,
                color_table(),
            ),
    {
        match section.get_str(state, "program") {
            GetResult::Found(program) => {
                self.program = Some(program);
            },
            _ => {},
        }
        self.output = section.get_path(state, "output").to_option();
        let table = color_map();
        let ghost t = color_table();
        let ghost c0 = self.colors@;
        let ghost prog = self.spec_program();
        let ghost out = self.spec_output();
        let n = table.len();
        let mut i: usize = 0;
        assert(t.take(0) =~= Seq::<(Seq<char>, Seq<char>)>::empty());
        assert(c0 + Seq::empty() =~= c0);
        while i < n
            invariant
                n == table@.len(),
                t == color_table(),
                table@.map_values(|p: (&'static str, &'static str)| (p.0@, p.1@)) == t,
                i <= n,
                self.spec_program() == prog,
                self.spec_output() == out,
                self.colors@ == c0 + picked_colors(section.0@, state.colors@, t.take(i as int)),
            decreases n - i,
        {
            let (name, resource) = table[i];
            assert(t[i as int] == (name@, resource@));
            assert(t.take(i + 1).drop_last() =~= t.take(i as int));
            let a = section.get_color(state, name).to_option();
            let b = section.get_color(state, resource).to_option();
            let picked = match a {
                Some(c) => Some(c),
                None => b,
            };
            match picked {
                Some(c) => {
                    self.colors.insert(resource.to_owned(), c);
                    assert(c0 + picked_colors(section.0@, state.colors@, t.take(i + 1)) =~= self.colors@);
                },
                None => {},
            }
            i = i + 1;
        }
        assert(t.take(n as int) =~= t);
        Ok(())
    }

    /// The resource lines, one per colour, each `program.name: #rrggbb`,
    /// with `*` for the program where none was given.
    pub fn generated(&self) -> (r: Result<String, Error>)
        ensures
            r matches Ok(s) && s@ == resource_lines(
                match self.spec_program() {
                    Some(p) => p,
                    None => "*"@,
                },
                self.spec_colors(),
            ),
    {
        let program: &str = match &self.program {
            Some(p) => p.as_str(),
            None => "*",
        };
        let ghost prog = program@;
        let mut buf = String::new();
        let n = self.colors.len();
        let entries = self.colors.entries();
        let mut i: usize = 0;
        let ghost cs = self.colors@;
        assert(cs.take(0) =~= Seq::<(Seq<char>, Color)>::empty());
        while i < n
            invariant
                n == cs.len(),
                cs == self.colors@,
                entries@ == self.colors.0@,
                prog == program@,
                i <= n,
                buf@ == resource_lines(prog, cs.take(i as int)),
            decreases n - i,
        {
            let e = &entries[i];
            assert(cs[i as int] == (e.name@, e.value));
            assert(cs.take(i + 1).drop_last() =~= cs.take(i as int));
            assert(cs.take(i + 1).last() == cs[i as int]);
            let ghost before = buf@;
            if i > 0 {
                push_char(&mut buf, '\n');
            }
            buf.append(program);
            push_char(&mut buf, '.');
            buf.append(e.name.as_str());
            push_char(&mut buf, ':');
            push_char(&mut buf, ' ');
            push_hex_color(&mut buf, e.value);
            if i == 0 {
                assert(cs.take(1) =~= seq![cs[0]]);
                assert(buf@ =~= resource_line(prog, e.name@, e.value));
            } else {
                assert(buf@ =~= before + seq!['\n'] + resource_line(prog, e.name@, e.value));
            }
            i = i + 1;
        }
        assert(cs.take(n as int) =~= cs);
        Ok(buf)
    }

    /// Where the resources are to be written, if a path was given.
    pub fn output(&self) -> (r: Option<&String>)
        ensures
            match self.spec_output() {
                Some(p) => r matches Some(s) && s@ == p,
                None => r is None,
            },
    {
        self.output.as_ref()
    }

    /// The program the resources are for, if one was given.
    pub fn program_name(&self) -> (r: Option<&String>)
        ensures
            match self.spec_program() {
                Some(p) => r matches Some(s) && s@ == p,
                None => r is None,
            },
    {
        self.program.as_ref()
    }

    /// The colours, each under its resource name.
    pub fn colors(&self) -> (r: &OrderedMap<Color>)
        ensures
            r@ == self.spec_colors(),
    {
        &self.colors
    }
}

} // verus!
