//! The parser of templates: a `---` header of `key: value` lines, then a
//! body of text and `{name|other}` placeholders.
use vstd::prelude::*;
use crate::lexer::skip_ws;
use crate::template::{parts_view, strings_view, Part, PartV, Template, TemplateHeader};
use crate::text::{same_text, chars_of, is_alphanumeric, is_whitespace, letter, numeric, push_char, space, string_of};

verus! {

/// Why a template could not be read.
#[derive(Debug, PartialEq, Eq, Structural)]
pub enum Error {
    InvalidHeader,
    InvalidInput,
}

pub open spec fn alnum(c: char) -> bool {
    letter(c) || numeric(c)
}

/// The end of the run of letters and digits that starts at `i`.
pub open spec fn alnum_end(s: Seq<char>, i: int) -> int
    decreases s.len() - i,
{
    if 0 <= i < s.len() && alnum(s[i]) {
        alnum_end(s, i + 1)
    } else {
        i
    }
}

pub open spec fn word_char(c: char) -> bool {
    c != '}' && c != '|' && !space(c)
}

/// The end of the name of a placeholder that starts at `i`.
pub open spec fn word_end(s: Seq<char>, i: int) -> int
    decreases s.len() - i,
{
    if 0 <= i < s.len() && word_char(s[i]) {
        word_end(s, i + 1)
    } else {
        i
    }
}

/// The end of the literal text that starts at `i`: the next `{`, or in a
/// header line also the next line break.
pub open spec fn text_end(s: Seq<char>, i: int, in_line: bool) -> int
    decreases s.len() - i,
{
    if 0 <= i < s.len() && s[i] != '{' && !(in_line && s[i] == '\n') {
        text_end(s, i + 1, in_line)
    } else {
        i
    }
}

/// The `sep`-separated names from `i` on, and the position after the
/// whitespace that follows the last.
pub open spec fn ident_list_from(s: Seq<char>, i: int, sep: char) -> (Seq<Seq<char>>, int)
    decreases s.len() - i,
{
    let e = alnum_end(s, i);
    let k = skip_ws(s, e);
    if i <= k && k < s.len() && s[k] == sep {
        let r = ident_list_from(s, k + 1, sep);
        (seq![s.subrange(i, e)] + r.0, r.1)
    } else {
        (seq![s.subrange(i, e)], k)
    }
}

/// A result with the names of `first` put before those of `r`.
pub open spec fn prepend_r<A>(first: Seq<A>, r: Result<(Seq<A>, int), Error>) -> Result<(Seq<A>, int), Error> {
    match r {
        Ok((xs, k)) => Ok((first + xs, k)),
        Err(e) => Err(e),
    }
}

/// The names of a placeholder whose `{` stands before `i`, and the position
/// after its `}`.
pub open spec fn input_from(s: Seq<char>, i: int) -> Result<(Seq<Seq<char>>, int), Error>
    decreases s.len() - i,
{
    let a = skip_ws(s, i);
    let e = word_end(s, a);
    let k = skip_ws(s, e);
    let w = s.subrange(a, e);
    if !(a < e) {
        Err(Error::InvalidInput)
    } else if 0 <= k < s.len() && s[k] == '}' {
        Ok((seq![w], k + 1))
    } else if i <= k && 0 <= k < s.len() && s[k] == '|' {
        prepend_r(seq![w], input_from(s, k + 1))
    } else {
        Err(Error::InvalidInput)
    }
}

/// The parts from `i` on, up to the end of the input or, in a header line,
/// past the next line break; and the position after them.
pub open spec fn parts_from(s: Seq<char>, i: int, in_line: bool) -> Result<(Seq<PartV>, int), Error>
    decreases s.len() - i,
{
    if i < 0 || i >= s.len() {
        Ok((Seq::empty(), i))
    } else if s[i] == '{' {
        match input_from(s, i + 1) {
            Ok((alts, j)) => if i < j <= s.len() {
                prepend_r(seq![PartV::Input(alts)], parts_from(s, j, in_line))
            } else {
                Err(Error::InvalidInput)
            },
            Err(e) => Err(e),
        }
    } else if in_line && s[i] == '\n' {
        Ok((Seq::empty(), i + 1))
    } else {
        let e = text_end(s, i, in_line);
        if i < e <= s.len() {
            prepend_r(seq![PartV::Str(s.subrange(i, e))], parts_from(s, e, in_line))
        } else {
            Ok((Seq::empty(), i))
        }
    }
}

/// The first `count` characters from `i` (fewer at the end of the input), and
/// the position after them.
pub open spec fn take_at(s: Seq<char>, i: int, count: int) -> (Seq<char>, int) {
    let e = if i + count <= s.len() { i + count } else { s.len() as int };
    (s.subrange(i, e), e)
}

/// The position past the line break at `i`, if one stands there.
pub open spec fn past_line_break(s: Seq<char>, i: int) -> int {
    if 0 <= i < s.len() && s[i] == '\n' {
        i + 1
    } else {
        i
    }
}

/// The position after the end of the line that holds `i`: past its line
/// break, or the end of the input.
pub open spec fn line_end(s: Seq<char>, i: int) -> int
    decreases s.len() - i,
{
    if i < 0 || i >= s.len() {
        i
    } else if s[i] == '\n' {
        i + 1
    } else {
        line_end(s, i + 1)
    }
}

pub open spec fn dashes() -> Seq<char> {
    seq!['-', '-', '-']
}

pub type HeaderV = (Seq<Seq<char>>, Option<Seq<PartV>>, Option<Seq<PartV>>);

/// The `key: value` lines of a header from `i` on, up to a line that starts
/// with `-`; `h` holds the fields read so far. A key other than `name`,
/// `output` and `apply` is ignored together with the rest of its line.
pub open spec fn header_fields(s: Seq<char>, i: int, h: HeaderV) -> Result<(HeaderV, int), Error>
    decreases s.len() - i,
{
    if 0 <= i < s.len() && s[i] == '-' {
        Ok((h, i))
    } else {
        let e = alnum_end(s, i);
        let k = skip_ws(s, e);
        if !(0 <= i <= k && k < s.len() && s[k] == ':') {
            Err(Error::InvalidHeader)
        } else {
            let v = skip_ws(s, k + 1);
            let key = s.subrange(i, e);
            let next: Result<(HeaderV, int), Error> = if key == seq!['n', 'a', 'm', 'e'] {
                let r = ident_list_from(s, v, ',');
                Ok(((r.0, h.1, h.2), r.1))
            } else if key == seq!['o', 'u', 't', 'p', 'u', 't'] {
                match parts_from(s, v, true) {
                    Ok((ps, j)) => Ok(((h.0, Some(ps), h.2), j)),
                    Err(err) => Err(err),
                }
            } else if key == seq!['a', 'p', 'p', 'l', 'y'] {
                match parts_from(s, v, true) {
                    Ok((ps, j)) => Ok(((h.0, h.1, Some(ps)), j)),
                    Err(err) => Err(err),
                }
            } else if key.len() == 0 {
                Err(Error::InvalidHeader)
            } else {
                Ok((h, line_end(s, k + 1)))
            };
            match next {
                Ok((h2, j)) => {
                    let j2 = skip_ws(s, j);
                    if i < j2 <= s.len() {
                        header_fields(s, j2, h2)
                    } else {
                        Err(Error::InvalidHeader)
                    }
                },
                Err(err) => Err(err),
            }
        }
    }
}

/// The header that starts at `i` and the position after it.
pub open spec fn header_at(s: Seq<char>, i: int) -> Result<(HeaderV, int), Error> {
    let t = take_at(s, i, 3);
    if t.0 != dashes() {
        Err(Error::InvalidHeader)
    } else {
        match header_fields(s, skip_ws(s, t.1), (Seq::empty(), None, None)) {
            Ok((h, j)) => {
                let t2 = take_at(s, j, 3);
                if t2.0 == dashes() && h.0.len() > 0 {
                    Ok((h, past_line_break(s, t2.1)))
                } else {
                    Err(Error::InvalidHeader)
                }
            },
            Err(err) => Err(err),
        }
    }
}

/// The header and body parts of a template text read from position `i`.
pub open spec fn template_from(s: Seq<char>, i: int) -> Result<(HeaderV, Seq<PartV>), Error> {
    match header_at(s, i) {
        Ok((h, j)) => match parts_from(s, j, false) {
            Ok((ps, k)) => Ok((h, ps)),
            Err(err) => Err(err),
        },
        Err(err) => Err(err),
    }
}

/// The header and body parts of a whole template text.
pub open spec fn template_of(s: Seq<char>) -> Result<(HeaderV, Seq<PartV>), Error> {
    template_from(s, 0)
}

pub open spec fn opt_parts_view(o: Option<Vec<Part>>) -> Option<Seq<PartV>> {
    match o {
        Some(v) => Some(parts_view(v@)),
        None => None,
    }
}

impl TemplateHeader {
    pub open spec fn view(&self) -> HeaderV {
        (strings_view(self.name@), opt_parts_view(self.output), opt_parts_view(self.apply))
    }
}

/// Reads a template, one character at a time.
pub struct Parser {
    buf: Vec<char>,
    pos: usize,
}

impl Parser {
    pub closed spec fn input(&self) -> Seq<char> {
        self.buf@
    }

    pub closed spec fn at(&self) -> int {
        self.pos as int
    }

    pub open spec fn wf(&self) -> bool {
        0 <= self.at() <= self.input().len()
    }

    pub fn new(buf: &str) -> (r: Parser)
        ensures
            r.input() == buf@,
            r.at() == 0,
            r.wf(),
    {
        Parser { buf: chars_of(buf), pos: 0 }
    }

    fn peek(&self) -> (r: Option<char>)
        ensures
            r == (if self.pos < self.buf@.len() { Some(self.buf@[self.pos as int]) } else { None::<char> }),
    {
        if self.pos < self.buf.len() {
            Some(self.buf[self.pos])
        } else {
            None
        }
    }

    fn next(&mut self) -> (r: Option<char>)
        requires
            old(self).wf(),
        ensures
            final(self).wf(),
            final(self).buf@ == old(self).buf@,
            r == (if old(self).pos < old(self).buf@.len() { Some(old(self).buf@[old(self).pos as int]) } else { None::<char> }),
            final(self).pos == (if old(self).pos < old(self).buf@.len() { old(self).pos + 1 } else { old(self).pos as int }),
    {
        if self.pos < self.buf.len() {
            let c = self.buf[self.pos];
            self.pos = self.pos + 1;
            Some(c)
        } else {
            None
        }
    }

    fn next_is(&self, d: char) -> (r: bool)
        ensures
            r == (self.pos < self.buf@.len() && self.buf@[self.pos as int] == d),
    {
        self.pos < self.buf.len() && self.buf[self.pos] == d
    }

    /// Reads `count` characters, and passes over one more.
    fn take(&mut self, count: usize) -> (r: String)
        requires
            old(self).wf(),
        ensures
            final(self).wf(),
            final(self).buf@ == old(self).buf@,
            r@ == take_at(old(self).buf@, old(self).pos as int, count as int).0,
            final(self).pos == take_at(old(self).buf@, old(self).pos as int, count as int).1,
    {
        let ghost s = self.buf@;
        let ghost start = self.pos as int;
        let mut buf = String::new();
        let mut i: usize = 0;
        loop
            invariant
                self.wf(),
                self.buf@ == s,
                i <= count,
                0 <= start,
                start + i <= s.len(),
                buf@ == s.subrange(start, start + i),
                self.pos == start + i,
            ensures
                buf@ == take_at(s, start, count as int).0,
                self.pos == take_at(s, start, count as int).1,
            decreases count - i,
        {
            if i >= count {
                break;
            }
            let ghost p = self.pos as int;
            match self.next() {
                None => {
                    break;
                },
                Some(c) => {
                    assert(p == start + i);
                    assert(p < s.len());
                    assert(c == s[p]);
                    let ghost before = buf@;
                    i = i + 1;
                    push_char(&mut buf, c);
                    assert(s.subrange(start, p + 1) =~= s.subrange(start, p).push(c));
                    assert(buf@ =~= s.subrange(start, start + i));
                },
            }
        }
        buf
    }

    /// Passes over the rest of the line and its line break.
    fn skip_line(&mut self)
        requires
            old(self).wf(),
        ensures
            final(self).wf(),
            final(self).buf@ == old(self).buf@,
            final(self).pos == line_end(old(self).buf@, old(self).pos as int),
    {
        let ghost s = self.buf@;
        let ghost start = self.pos as int;
        loop
            invariant_except_break
                line_end(s, start) == line_end(s, self.pos as int),
            invariant
                self.wf(),
                self.buf@ == s,
            ensures
                line_end(s, start) == self.pos,
            decreases s.len() - self.pos,
        {
            match self.next() {
                None => {
                    break;
                },
                Some(c) => {
                    if c == '\n' {
                        break;
                    }
                },
            }
        }
    }

    fn skip_whitespace(&mut self)
        requires
            old(self).wf(),
        ensures
            final(self).wf(),
            final(self).buf@ == old(self).buf@,
            final(self).pos == skip_ws(old(self).buf@, old(self).pos as int),
            final(self).pos >= old(self).pos,
    {
        let ghost s = self.buf@;
        let ghost start = self.pos as int;
        while self.pos < self.buf.len() && is_whitespace(self.buf[self.pos])
            invariant
                self.wf(),
                self.buf@ == s,
                start <= self.pos,
                skip_ws(s, start) == skip_ws(s, self.pos as int),
            decreases s.len() - self.pos,
        {
            self.pos = self.pos + 1;
        }
    }

    /// Reads a header, then the body.
    pub fn parse(self) -> (r: Result<Template, Error>)
        requires
            self.wf(),
        ensures
            match template_from(self.input(), self.at()) {
                Ok((h, ps)) => r matches Ok(t) && t.header@ == h && parts_view(t.parts@) == ps,
                Err(e) => r matches Err(e2) && e2 == e,
            },
    {
        let mut me = self;
        me.read_all()
    }

    fn read_all(&mut self) -> (r: Result<Template, Error>)
        requires
            old(self).wf(),
        ensures
            match template_from(old(self).input(), old(self).at()) {
                Ok((h, ps)) => r matches Ok(t) && t.header@ == h && parts_view(t.parts@) == ps,
                Err(e) => r matches Err(e2) && e2 == e,
            },
    {
        let header = match self.parse_header() {
            Ok(h) => h,
            Err(e) => {
                return Err(e);
            },
        };
        let parts = match self.parse_parts() {
            Ok(p) => p,
            Err(e) => {
                return Err(e);
            },
        };
        Ok(Template { header, parts })
    }

    fn parse_ident(&mut self) -> (r: String)
        requires
            old(self).wf(),
        ensures
            final(self).wf(),
            final(self).buf@ == old(self).buf@,
            final(self).pos == alnum_end(old(self).buf@, old(self).pos as int),
            final(self).pos >= old(self).pos,
            r@ == old(self).buf@.subrange(old(self).pos as int, final(self).pos as int),
    {
        let ghost s = self.buf@;
        let start = self.pos;
        while self.pos < self.buf.len() && is_alphanumeric(self.buf[self.pos])
            invariant
                self.wf(),
                self.buf@ == s,
                start <= self.pos,
                alnum_end(s, start as int) == alnum_end(s, self.pos as int),
            decreases s.len() - self.pos,
        {
            self.pos = self.pos + 1;
        }
        string_of(&self.buf, start, self.pos)
    }

    fn parse_ident_list(&mut self, sep: char) -> (r: Vec<String>)
        requires
            old(self).wf(),
        ensures
            final(self).wf(),
            final(self).buf@ == old(self).buf@,
            (strings_view(r@), final(self).pos as int) == ident_list_from(old(self).buf@, old(self).pos as int, sep),
            final(self).pos >= old(self).pos,
    {
        let ghost s = self.buf@;
        let ghost start = self.pos as int;
        let mut list: Vec<String> = Vec::new();
        let first = self.parse_ident();
        list.push(first);
        self.skip_whitespace();
        let ghost mut item_start = start;
        proof {
            assert(strings_view(list@) =~= seq![first@]);
        }
        while self.next_is(sep)
            invariant
                self.wf(),
                self.buf@ == s,
                start <= item_start <= self.pos,
                list@.len() > 0,
                ident_list_from(s, start, sep) == (
                    strings_view(list@).drop_last() + ident_list_from(s, item_start, sep).0,
                    ident_list_from(s, item_start, sep).1,
                ),
                ({
                    let e = alnum_end(s, item_start);
                    &&& self.pos == skip_ws(s, e)
                    &&& strings_view(list@).last() == s.subrange(item_start, e)
                }),
            decreases s.len() - self.pos,
        {
            let ghost p = self.pos as int;
            let ghost before = list@;
            self.next();
            let ghost next_start = self.pos as int;
            let item = self.parse_ident();
            list.push(item);
            self.skip_whitespace();
            proof {
                let r = ident_list_from(s, next_start, sep);
                assert(strings_view(list@).drop_last() =~= strings_view(before));
                assert(strings_view(before) =~= strings_view(before).drop_last().push(
                    strings_view(before).last(),
                ));
                assert(strings_view(before).drop_last() + (seq![strings_view(before).last()] + r.0)
                    =~= strings_view(list@).drop_last() + r.0);
                item_start = next_start;
            }
        }
        proof {
            assert(strings_view(list@) =~= strings_view(list@).drop_last() + seq![strings_view(list@).last()]);
        }
        list
    }

    fn parse_input(&mut self) -> (r: Result<Part, Error>)
        requires
            old(self).wf(),
            old(self).pos < old(self).buf@.len(),
        ensures
            final(self).wf(),
            final(self).buf@ == old(self).buf@,
            match input_from(old(self).buf@, old(self).pos + 1) {
                Ok((alts, j)) => r matches Ok(p) && p@ == PartV::Input(alts) && final(self).pos == j,
                Err(e) => r == Err::<Part, Error>(e),
            },
            r is Ok ==> final(self).pos > old(self).pos,
            final(self).pos >= old(self).pos,
    {
        let ghost s = self.buf@;
        self.next();
        let ghost start = self.pos as int;
        let mut inputs: Vec<String> = Vec::new();
        loop
            invariant_except_break
                input_from(s, start) == prepend_r(strings_view(inputs@), input_from(s, self.pos as int)),
            invariant
                self.wf(),
                self.buf@ == s,
                start <= self.pos,
                s == old(self).buf@,
                start == old(self).pos + 1,
            ensures
                input_from(s, start) == Ok::<(Seq<Seq<char>>, int), Error>((strings_view(inputs@), self.pos as int)),
                start < self.pos,
            decreases s.len() - self.pos,
        {
            let ghost i = self.pos as int;
            self.skip_whitespace();
            let begin = self.pos;
            while self.pos < self.buf.len() && self.buf[self.pos] != '}' && self.buf[self.pos] != '|'
                && !is_whitespace(self.buf[self.pos])
                invariant
                    self.wf(),
                    self.buf@ == s,
                    begin <= self.pos,
                    word_end(s, begin as int) == word_end(s, self.pos as int),
                decreases s.len() - self.pos,
            {
                self.pos = self.pos + 1;
            }
            if self.pos == begin {
                return Err(Error::InvalidInput);
            }
            let word = string_of(&self.buf, begin, self.pos);
            let ghost before = inputs@;
            inputs.push(word);
            assert(strings_view(inputs@) =~= strings_view(before).push(word@));
            self.skip_whitespace();
            if self.next_is('}') {
                self.next();
                assert(strings_view(before) + seq![word@] =~= strings_view(inputs@));
                break;
            } else if self.next_is('|') {
                self.next();
                proof {
                    if let Ok((xs, k)) = input_from(s, self.pos as int) {
                        assert(strings_view(before) + (seq![word@] + xs) =~= strings_view(inputs@) + xs);
                    }
                }
            } else {
                return Err(Error::InvalidInput);
            }
        }
        Ok(Part::Input(inputs))
    }

    /// Reads parts up to the end of the input, or in a header line past the
    /// next line break.
    fn parse_run(&mut self, in_line: bool) -> (r: Result<Vec<Part>, Error>)
        requires
            old(self).wf(),
        ensures
            final(self).wf(),
            final(self).buf@ == old(self).buf@,
            match parts_from(old(self).buf@, old(self).pos as int, in_line) {
                Ok((ps, j)) => r matches Ok(v) && parts_view(v@) == ps && final(self).pos == j,
                Err(e) => r == Err::<Vec<Part>, Error>(e),
            },
            final(self).pos >= old(self).pos,
    {
        let ghost s = self.buf@;
        let ghost start = self.pos as int;
        let mut parts: Vec<Part> = Vec::new();
        loop
            invariant_except_break
                parts_from(s, start, in_line) == prepend_r(parts_view(parts@), parts_from(s, self.pos as int, in_line)),
            invariant
                self.wf(),
                self.buf@ == s,
                start <= self.pos,
                s == old(self).buf@,
                start == old(self).pos,
            ensures
                parts_from(s, start, in_line) == Ok::<(Seq<PartV>, int), Error>((parts_view(parts@), self.pos as int)),
            decreases s.len() - self.pos,
        {
            let ghost i = self.pos as int;
            let ghost before = parts@;
            if self.pos >= self.buf.len() {
                assert(parts_view(parts@) + Seq::empty() =~= parts_view(parts@));
                break;
            }
            if self.next_is('{') {
                match self.parse_input() {
                    Ok(p) => {
                        parts.push(p);
                        assert(parts_view(parts@) =~= parts_view(before).push(p@));
                        proof {
                            if let Ok((xs, k)) = parts_from(s, self.pos as int, in_line) {
                                assert(parts_view(before) + (seq![p@] + xs) =~= parts_view(parts@) + xs);
                            }
                        }
                    },
                    Err(e) => {
                        return Err(e);
                    },
                }
            } else if in_line && self.next_is('\n') {
                self.next();
                assert(parts_view(parts@) + Seq::empty() =~= parts_view(parts@));
                break;
            } else {
                let begin = self.pos;
                while self.pos < self.buf.len() && self.buf[self.pos] != '{' && !(in_line && self.buf[self.pos] == '\n')
                    invariant
                        self.wf(),
                        self.buf@ == s,
                        begin <= self.pos,
                        text_end(s, begin as int, in_line) == text_end(s, self.pos as int, in_line),
                    decreases s.len() - self.pos,
                {
                    self.pos = self.pos + 1;
                }
                let text = string_of(&self.buf, begin, self.pos);
                let p = Part::Str(text);
                parts.push(p);
                assert(parts_view(parts@) =~= parts_view(before).push(p@));
                proof {
                    if let Ok((xs, k)) = parts_from(s, self.pos as int, in_line) {
                        assert(parts_view(before) + (seq![p@] + xs) =~= parts_view(parts@) + xs);
                    }
                }
            }
        }
        Ok(parts)
    }

    fn parse_line(&mut self) -> (r: Result<Vec<Part>, Error>)
        requires
            old(self).wf(),
        ensures
            final(self).wf(),
            final(self).buf@ == old(self).buf@,
            match parts_from(old(self).buf@, old(self).pos as int, true) {
                Ok((ps, j)) => r matches Ok(v) && parts_view(v@) == ps && final(self).pos == j,
                Err(e) => r == Err::<Vec<Part>, Error>(e),
            },
            final(self).pos >= old(self).pos,
    {
        self.parse_run(true)
    }

    /// Reads the body: text and placeholders up to the end of the input.
    pub fn parse_parts(&mut self) -> (r: Result<Vec<Part>, Error>)
        requires
            old(self).wf(),
        ensures
            final(self).wf(),
            final(self).input() == old(self).input(),
            match parts_from(old(self).input(), old(self).at(), false) {
                Ok((ps, j)) => r matches Ok(v) && parts_view(v@) == ps && final(self).at() == j,
                Err(e) => r == Err::<Vec<Part>, Error>(e),
            },
    {
        self.parse_run(false)
    }

    /// Reads the header: `---`, then `key: value` lines, then `---`. It
    /// needs a `name` line; `output` and `apply` are optional.
    pub fn parse_header(&mut self) -> (r: Result<TemplateHeader, Error>)
        requires
            old(self).wf(),
        ensures
            final(self).wf(),
            final(self).input() == old(self).input(),
            match header_at(old(self).input(), old(self).at()) {
                Ok((h, j)) => r matches Ok(x) && x@ == h && final(self).at() == j,
                Err(e) => r matches Err(e2) && e2 == e,
            },
    {
        let ghost s = self.buf@;
        proof {
            reveal_strlit("---");
            assert("---"@ =~= dashes());
            reveal_strlit("name");
            reveal_strlit("output");
            reveal_strlit("apply");
            assert("name"@ =~= seq!['n', 'a', 'm', 'e']);
            assert("output"@ =~= seq!['o', 'u', 't', 'p', 'u', 't']);
            assert("apply"@ =~= seq!['a', 'p', 'p', 'l', 'y']);
        }
        let t = self.take(3);
        if !same_text(&t, "---") {
            return Err(Error::InvalidHeader);
        }
        let mut header = TemplateHeader { name: Vec::new(), output: None, apply: None };
        self.skip_whitespace();
        let ghost a0 = self.pos as int;
        let ghost h0: HeaderV = (Seq::empty(), None, None);
        assert(header@ =~= h0);
        loop
            invariant_except_break
                header_fields(s, a0, h0) == header_fields(s, self.pos as int, header@),
            invariant
                self.wf(),
                self.buf@ == s,
                s == old(self).buf@,
                "name"@ =~= seq!['n', 'a', 'm', 'e'],
                "output"@ =~= seq!['o', 'u', 't', 'p', 'u', 't'],
                "apply"@ =~= seq!['a', 'p', 'p', 'l', 'y'],
                "---"@ =~= dashes(),
                a0 == skip_ws(s, take_at(s, old(self).pos as int, 3).1),
                take_at(s, old(self).pos as int, 3).0 == dashes(),
                h0 == (Seq::<Seq<char>>::empty(), None::<Seq<PartV>>, None::<Seq<PartV>>),
            ensures
                header_fields(s, a0, h0) == Ok::<(HeaderV, int), Error>((header@, self.pos as int)),
            decreases s.len() - self.pos,
        {
            if self.next_is('-') {
                break;
            }
            let i = self.pos;
            let ident = self.parse_ident();
            let e = self.pos;
            self.skip_whitespace();
            if !self.next_is(':') {
                return Err(Error::InvalidHeader);
            }
            self.next();
            let after_colon = self.pos;
            self.skip_whitespace();
            let ghost v = self.pos as int;
            assert(ident@ == s.subrange(i as int, e as int));
            if same_text(&ident, "name") {
                header.name = self.parse_ident_list(',');
            } else if same_text(&ident, "output") {
                match self.parse_line() {
                    Ok(p) => {
                        header.output = Some(p);
                    },
                    Err(err) => {
                        return Err(err);
                    },
                }
            } else if same_text(&ident, "apply") {
                match self.parse_line() {
                    Ok(p) => {
                        header.apply = Some(p);
                    },
                    Err(err) => {
                        return Err(err);
                    },
                }
            } else if e == i {
                return Err(Error::InvalidHeader);
            } else {
                self.pos = after_colon;
                self.skip_line();
            }
            self.skip_whitespace();
            if !(i < self.pos) {
                return Err(Error::InvalidHeader);
            }
        }
        let t2 = self.take(3);
        if !same_text(&t2, "---") || header.name.len() == 0 {
            return Err(Error::InvalidHeader);
        }
        if self.next_is('\n') {
            self.next();
        }
        Ok(header)
    }
}

} // verus!
