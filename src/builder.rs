//! A template builder that reads a header of `key: value` lines between two
//! `---` delimiters.
use vstd::prelude::*;
use crate::lexer::skip_ws;
use crate::template::strings_view;
use crate::template_parser::dashes;
use crate::text::{chars_of, is_whitespace, space, string_of};

verus! {

/// Why a header could not be read.
#[derive(Debug, PartialEq, Eq, Structural)]
pub enum Error {
    InvalidHeader,
}

/// A piece of a built template: literal text, or an input field.
#[derive(Debug, PartialEq, Eq)]
pub enum Part {
    Buf(String),
    Input(String),
}

/// A template with its names, its output and its parts.
#[derive(Debug)]
pub struct Template {
    pub name: Vec<String>,
    pub output: String,
    pub parts: Vec<Part>,
}

impl Template {
    pub fn new(name: Vec<String>, output: String, parts: Vec<Part>) -> (r: Self)
        ensures
            r.name == name,
            r.output == output,
            r.parts == parts,
    {
        Template { name, output, parts }
    }
}

/// The first position at or after `i` where `---` starts.
pub open spec fn find_dashes(s: Seq<char>, i: int) -> Option<int>
    decreases s.len() - i,
{
    if i < 0 || i + 3 > s.len() {
        None
    } else if s.subrange(i, i + 3) == dashes() {
        Some(i)
    } else {
        find_dashes(s, i + 1)
    }
}

/// The first position at or after `i` that holds `c`.
pub open spec fn find_char(s: Seq<char>, c: char, i: int) -> Option<int>
    decreases s.len() - i,
{
    if i < 0 || i >= s.len() {
        None
    } else if s[i] == c {
        Some(i)
    } else {
        find_char(s, c, i + 1)
    }
}

/// The end of `s[..j]` without its trailing whitespace.
pub open spec fn trim_end(s: Seq<char>, j: int) -> int
    decreases j,
{
    if 0 < j <= s.len() && space(s[j - 1]) {
        trim_end(s, j - 1)
    } else {
        j
    }
}

/// `s` without leading and trailing whitespace.
pub open spec fn trimmed(s: Seq<char>) -> Seq<char> {
    let a = skip_ws(s, 0);
    let b = trim_end(s, s.len() as int);
    if a < b {
        s.subrange(a, b)
    } else {
        Seq::empty()
    }
}

/// The pieces of `s[i..]` between the occurrences of `c`.
pub open spec fn split_from(s: Seq<char>, c: char, i: int) -> Seq<Seq<char>>
    decreases s.len() - i,
{
    match find_char(s, c, i) {
        Some(k) => if 0 <= i <= k < s.len() {
            seq![s.subrange(i, k)] + split_from(s, c, k + 1)
        } else {
            seq![s.subrange(i, s.len() as int)]
        },
        None => seq![s.subrange(i, s.len() as int)],
    }
}

pub open spec fn split_on(s: Seq<char>, c: char) -> Seq<Seq<char>> {
    split_from(s, c, 0)
}

pub type FieldsV = (Option<Seq<Seq<char>>>, Option<Seq<char>>);

/// Reads header lines in order into `st`: `name: a,b` sets the names,
/// `output: o` the output. The fields read before a line without `:` or
/// with another key are kept, and `false` tells of that line.
pub open spec fn read_lines(lines: Seq<Seq<char>>, st: FieldsV) -> (FieldsV, bool)
    decreases lines.len(),
{
    if lines.len() == 0 {
        (st, true)
    } else {
        let line = lines[0];
        match find_char(line, ':', 0) {
            None => (st, false),
            Some(k) => {
                let key = trimmed(line.subrange(0, k));
                let value = trimmed(line.subrange(k + 1, line.len() as int));
                if key == seq!['n', 'a', 'm', 'e'] {
                    read_lines(lines.drop_first(), (Some(split_on(value, ',')), st.1))
                } else if key == seq!['o', 'u', 't', 'p', 'u', 't'] {
                    read_lines(lines.drop_first(), (st.0, Some(value)))
                } else {
                    (st, false)
                }
            },
        }
    }
}

/// The header text of a template: what stands between its first two `---`.
pub open spec fn header_text(s: Seq<char>) -> Option<Seq<char>> {
    match find_dashes(s, 0) {
        Some(a) => match find_dashes(s, a + 3) {
            Some(b) => Some(s.subrange(a + 3, b)),
            None => None,
        },
        None => None,
    }
}

pub open spec fn vecs_view(v: Seq<Vec<char>>) -> Seq<Seq<char>> {
    v.map_values(|x: Vec<char>| x@)
}

fn sub_vec(cs: &Vec<char>, from: usize, to: usize) -> (r: Vec<char>)
    requires
        from <= to <= cs@.len(),
    ensures
        r@ == cs@.subrange(from as int, to as int),
{
    let mut r: Vec<char> = Vec::new();
    let mut i = from;
    while i < to
        invariant
            from <= i <= to <= cs@.len(),
            r@ == cs@.subrange(from as int, i as int),
        decreases to - i,
    {
        r.push(cs[i]);
        assert(r@ =~= cs@.subrange(from as int, i + 1));
        i = i + 1;
    }
    r
}

fn find_dashes_from(cs: &Vec<char>, start: usize) -> (r: Option<usize>)
    ensures
        r matches Some(k) ==> find_dashes(cs@, start as int) == Some(k as int),
        r is None ==> find_dashes(cs@, start as int) is None,
        r matches Some(k) ==> start <= k && k + 3 <= cs@.len(),
{
    let n = cs.len();
    let mut i = start;
    while n >= 3 && i <= n - 3
        invariant
            n == cs@.len(),
            start <= i,
            find_dashes(cs@, start as int) == find_dashes(cs@, i as int),
        decreases n - i,
    {
        if cs[i] == '-' && cs[i + 1] == '-' && cs[i + 2] == '-' {
            assert(cs@.subrange(i as int, i + 3) =~= dashes());
            return Some(i);
        }
        assert(cs@.subrange(i as int, i + 3) != dashes()) by {
            if cs@.subrange(i as int, i + 3) == dashes() {
                assert(cs@.subrange(i as int, i + 3)[0] == cs@[i as int]);
                assert(cs@.subrange(i as int, i + 3)[1] == cs@[i + 1]);
                assert(cs@.subrange(i as int, i + 3)[2] == cs@[i + 2]);
            }
        }
        i = i + 1;
    }
    None
}

fn find_char_from(cs: &Vec<char>, c: char, start: usize) -> (r: Option<usize>)
    ensures
        r matches Some(k) ==> find_char(cs@, c, start as int) == Some(k as int),
        r is None ==> find_char(cs@, c, start as int) is None,
        r matches Some(k) ==> start <= k < cs@.len(),
{
    let n = cs.len();
    let mut i = start;
    while i < n
        invariant
            n == cs@.len(),
            start <= i,
            find_char(cs@, c, start as int) == find_char(cs@, c, i as int),
        decreases n - i,
    {
        if cs[i] == c {
            return Some(i);
        }
        i = i + 1;
    }
    None
}

fn trim_vec(cs: &Vec<char>) -> (r: Vec<char>)
    ensures
        r@ == trimmed(cs@),
{
    let n = cs.len();
    let mut a: usize = 0;
    while a < n && is_whitespace(cs[a])
        invariant
            n == cs@.len(),
            a <= n,
            skip_ws(cs@, 0) == skip_ws(cs@, a as int),
        decreases n - a,
    {
        a = a + 1;
    }
    let mut b: usize = n;
    while b > 0 && is_whitespace(cs[b - 1])
        invariant
            n == cs@.len(),
            b <= n,
            trim_end(cs@, n as int) == trim_end(cs@, b as int),
        decreases b,
    {
        b = b - 1;
    }
    if a < b {
        sub_vec(cs, a, b)
    } else {
        Vec::new()
    }
}

fn split_vec(cs: &Vec<char>, c: char) -> (r: Vec<Vec<char>>)
    ensures
        vecs_view(r@) == split_on(cs@, c),
{
    let n = cs.len();
    let mut pieces: Vec<Vec<char>> = Vec::new();
    let mut start: usize = 0;
    loop
        invariant_except_break
            split_on(cs@, c) == vecs_view(pieces@) + split_from(cs@, c, start as int),
        invariant
            n == cs@.len(),
            start <= n,
        ensures
            split_on(cs@, c) == vecs_view(pieces@),
        decreases n - start,
    {
        let ghost before = pieces@;
        match find_char_from(cs, c, start) {
            Some(k) => {
                if k < n {
                    let ghost old_start = start as int;
                    assert(split_from(cs@, c, old_start) == seq![cs@.subrange(old_start, k as int)] + split_from(
                        cs@,
                        c,
                        k + 1,
                    ));
                    let piece = sub_vec(cs, start, k);
                    pieces.push(piece);
                    assert(vecs_view(pieces@) =~= vecs_view(before).push(piece@));
                    assert(vecs_view(before) + (seq![piece@] + split_from(cs@, c, k + 1))
                        =~= vecs_view(pieces@) + split_from(cs@, c, k + 1));
                    start = k + 1;
                } else {
                    let piece = sub_vec(cs, start, n);
                    pieces.push(piece);
                    assert(vecs_view(pieces@) =~= vecs_view(before) + seq![piece@]);
                    break;
                }
            },
            None => {
                let piece = sub_vec(cs, start, n);
                pieces.push(piece);
                assert(vecs_view(pieces@) =~= vecs_view(before) + seq![piece@]);
                break;
            },
        }
    }
    pieces
}

fn strings_of(vs: &Vec<Vec<char>>) -> (r: Vec<String>)
    ensures
        strings_view(r@) == vecs_view(vs@),
{
    let mut r: Vec<String> = Vec::new();
    let n = vs.len();
    let mut i: usize = 0;
    while i < n
        invariant
            n == vs@.len(),
            i <= n,
            strings_view(r@) == vecs_view(vs@).take(i as int),
        decreases n - i,
    {
        let ghost before = r@;
        let s = string_of(&vs[i], 0, vs[i].len());
        assert(vs@[i as int]@.subrange(0, vs@[i as int]@.len() as int) =~= vs@[i as int]@);
        r.push(s);
        assert(strings_view(r@) =~= strings_view(before).push(s@));
        assert(vecs_view(vs@).take(i + 1) =~= vecs_view(vs@).take(i as int).push(s@));
        i = i + 1;
    }
    assert(vecs_view(vs@).take(n as int) =~= vecs_view(vs@));
    r
}

/// Builds a template from its text.
pub struct TemplateBuilder {
    pub name: Option<Vec<String>>,
    pub output: Option<String>,
    pub parts: Vec<Part>,
}

impl TemplateBuilder {
    pub open spec fn fields(&self) -> FieldsV {
        (
            match self.name {
                Some(v) => Some(strings_view(v@)),
                None => None,
            },
            match self.output {
                Some(o) => Some(o@),
                None => None,
            },
        )
    }

    pub fn new() -> (r: Self)
        ensures
            r.name is None,
            r.output is None,
            r.parts@.len() == 0,
    {
        TemplateBuilder { name: None, output: None, parts: Vec::new() }
    }

    fn read_header(&mut self, buf: &Vec<char>) -> (r: Result<(), Error>)
        ensures
            final(self).fields() == read_lines(split_on(trimmed(buf@), '\n'), old(self).fields()).0,
            r is Ok <==> read_lines(split_on(trimmed(buf@), '\n'), old(self).fields()).1,
            final(self).parts == old(self).parts,
    {
        proof {
            reveal_strlit("name");
            reveal_strlit("output");
        }
        let t = trim_vec(buf);
        let lines = split_vec(&t, '\n');
        let ghost all = vecs_view(lines@);
        let ghost st0 = self.fields();
        let n = lines.len();
        let mut i: usize = 0;
        assert(all.skip(0) =~= all);
        while i < n
            invariant
                n == lines@.len(),
                all == vecs_view(lines@),
                all == split_on(trimmed(buf@), '\n'),
                st0 == old(self).fields(),
                i <= n,
                self.parts == old(self).parts,
                read_lines(all, st0) == read_lines(all.skip(i as int), self.fields()),
                "name"@ =~= seq!['n', 'a', 'm', 'e'],
                "output"@ =~= seq!['o', 'u', 't', 'p', 'u', 't'],
            decreases n - i,
        {
            let line = &lines[i];
            let len = line.len();
            assert(all.skip(i as int)[0] == line@);
            assert(all.skip(i as int).drop_first() =~= all.skip(i + 1));
            let k = match find_char_from(line, ':', 0) {
                Some(k) => k,
                None => {
                    assert(read_lines(all.skip(i as int), self.fields()) == (self.fields(), false));
                    return Err(Error::InvalidHeader);
                },
            };
            let key_chars = sub_vec(line, 0, k);
            let key_trim = trim_vec(&key_chars);
            let key = string_of(&key_trim, 0, key_trim.len());
            let value_chars = sub_vec(line, k + 1, len);
            let value_trim = trim_vec(&value_chars);
            assert(key_trim@.subrange(0, key_trim@.len() as int) =~= key_trim@);
            if crate::text::same_text(&key, "name") {
                let pieces = split_vec(&value_trim, ',');
                self.name = Some(strings_of(&pieces));
            } else if crate::text::same_text(&key, "output") {
                let out = string_of(&value_trim, 0, value_trim.len());
                assert(value_trim@.subrange(0, value_trim@.len() as int) =~= value_trim@);
                self.output = Some(out);
            } else {
                assert(read_lines(all.skip(i as int), self.fields()) == (self.fields(), false));
                return Err(Error::InvalidHeader);
            }
            i = i + 1;
        }
        assert(all.skip(n as int) =~= Seq::<Seq<char>>::empty());
        Ok(())
    }

    /// Reads the header of a template text, the part between its first two
    /// `---`.
    pub fn parse(&mut self, buf: &str) -> (r: Result<(), Error>)
        ensures
            match header_text(buf@) {
                Some(h) => {
                    &&& final(self).fields() == read_lines(split_on(trimmed(h), '\n'), old(self).fields()).0
                    &&& (r is Ok <==> read_lines(split_on(trimmed(h), '\n'), old(self).fields()).1)
                },
                None => r == Err::<(), Error>(Error::InvalidHeader) && final(self).fields() == old(self).fields(),
            },
            final(self).parts == old(self).parts,
    {
        let cs = chars_of(buf);
        let n = cs.len();
        let a = match find_dashes_from(&cs, 0) {
            Some(a) => a,
            None => {
                return Err(Error::InvalidHeader);
            },
        };
        let b = match find_dashes_from(&cs, a + 3) {
            Some(b) => b,
            None => {
                return Err(Error::InvalidHeader);
            },
        };
        let header = sub_vec(&cs, a + 3, b);
        self.read_header(&header)
    }
}

} // verus!
