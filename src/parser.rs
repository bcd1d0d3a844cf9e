//! A recursive-descent parser from tokens to the value tree.
use vstd::prelude::*;
use crate::config::{entries_view, sections_view, Config, Section, Value, ValueV};
use crate::digits::{
    decimal_u8_ok, decimal_value, hex_u32_ok, hex_value, parse_decimal_u8, parse_hex_u32,
    unsigned_digits,
};
use crate::lexer::{lemma_lex_at_advances, lex_all, tokens_of, Lexer};
use crate::map::OrderedMap;
use crate::token::{Token, TokenV};

verus! {

/// The entries `acc` put before those of a successful parse.
pub open spec fn prepend<A>(acc: Seq<A>, r: Option<(Seq<A>, int)>) -> Option<(Seq<A>, int)> {
    match r {
        Some((xs, k)) => Some((acc + xs, k)),
        None => None,
    }
}

pub open spec fn rgb_name() -> Seq<char> {
    seq!['r', 'g', 'b']
}

/// The value that a hexadecimal literal token writes.
pub open spec fn hex_literal(s: Seq<char>) -> u32 {
    hex_value(unsigned_digits(s)) as u32
}

/// The value of one parameter token of a call, or `None` where the token is
/// no parameter or its number does not parse.
pub open spec fn param_of(t: TokenV) -> Option<ValueV> {
    match t {
        TokenV::Ident(s) => Some(ValueV::Str(s)),
        TokenV::Str(s) => Some(ValueV::Str(s)),
        TokenV::Hex(s) => if hex_u32_ok(s) {
            Some(ValueV::Hex(hex_literal(s)))
        } else {
            None
        },
        TokenV::Number(s) => if decimal_u8_ok(s) {
            Some(ValueV::Number(decimal_value(unsigned_digits(s)) as u8))
        } else {
            None
        },
        TokenV::Path(s) => Some(ValueV::Path(s)),
        _ => None,
    }
}

/// The parameters from position `i` on, up to and past the closing
/// parenthesis of a call. A list may close at once only where it opens
/// (`first`); after a comma a parameter must follow.
pub open spec fn params_from(t: Seq<TokenV>, i: int, first: bool) -> Option<(Seq<ValueV>, int)>
    decreases t.len() - i,
{
    if i < 0 || i >= t.len() {
        None
    } else if first && t[i] is RParen {
        Some((Seq::empty(), i + 1))
    } else {
        match param_of(t[i]) {
            None => None,
            Some(p) => if i + 1 >= t.len() {
                None
            } else if t[i + 1] is Comma {
                prepend(seq![p], params_from(t, i + 2, false))
            } else if t[i + 1] is RParen {
                Some((seq![p], i + 2))
            } else {
                None
            },
        }
    }
}

/// A parenthesised parameter list at position `i`.
pub open spec fn params_at(t: Seq<TokenV>, i: int) -> Option<(Seq<ValueV>, int)> {
    if 0 <= i < t.len() && t[i] is LParen {
        params_from(t, i + 1, true)
    } else {
        None
    }
}

/// A parameter as a colour channel: the low byte of a hexadecimal value, or
/// a number.
pub open spec fn channel_of(v: ValueV) -> Option<u8> {
    match v {
        ValueV::Hex(h) => Some((h & 255) as u8),
        ValueV::Number(n) => Some(n),
        _ => None,
    }
}

/// The colour that the parameters of an `rgb` call give: three channels.
pub open spec fn rgb_of(ps: Seq<ValueV>) -> Option<ValueV> {
    if ps.len() == 3 && channel_of(ps[0]) is Some && channel_of(ps[1]) is Some && channel_of(
        ps[2],
    ) is Some {
        Some(ValueV::RGB(channel_of(ps[0])->0, channel_of(ps[1])->0, channel_of(ps[2])->0))
    } else {
        None
    }
}

/// The value at position `i` and the position after it.
pub open spec fn value_at(t: Seq<TokenV>, i: int) -> Option<(ValueV, int)>
    decreases t.len() - i, 1int,
{
    if i < 0 || i >= t.len() {
        None
    } else {
        match t[i] {
            TokenV::LBrace => match section_at(t, i) {
                Some((es, j)) => Some((ValueV::Section(es), j)),
                None => None,
            },
            TokenV::Ident(s) => if s == rgb_name() {
                match params_at(t, i + 1) {
                    Some((ps, j)) => match rgb_of(ps) {
                        Some(v) => Some((v, j)),
                        None => None,
                    },
                    None => None,
                }
            } else {
                Some((ValueV::Str(s), i + 1))
            },
            TokenV::Str(s) => Some((ValueV::Str(s), i + 1)),
            TokenV::Hex(s) => if hex_u32_ok(s) {
                Some((ValueV::Hex(hex_literal(s)), i + 1))
            } else {
                None
            },
            TokenV::Path(p) => Some((ValueV::Path(p), i + 1)),
            _ => None,
        }
    }
}

/// The braced section at position `i` and the position after it.
pub open spec fn section_at(t: Seq<TokenV>, i: int) -> Option<(Seq<(Seq<char>, ValueV)>, int)>
    decreases t.len() - i, 0int,
{
    if 0 <= i < t.len() && t[i] is LBrace {
        entries_from(t, i + 1)
    } else {
        None
    }
}

/// The named values from position `i` on up to the closing brace, and the
/// position after that brace.
pub open spec fn entries_from(t: Seq<TokenV>, i: int) -> Option<(Seq<(Seq<char>, ValueV)>, int)>
    decreases t.len() - i, 2int,
{
    if i < 0 || i >= t.len() {
        None
    } else {
        match t[i] {
            TokenV::RBrace => Some((Seq::empty(), i + 1)),
            TokenV::Ident(name) => match value_at(t, i + 1) {
                Some((v, j)) => if i < j <= t.len() {
                    prepend(seq![(name, v)], entries_from(t, j))
                } else {
                    None
                },
                None => None,
            },
            _ => None,
        }
    }
}

/// The named sections from position `i` on, up to the first token that is
/// not a name.
pub open spec fn config_from(t: Seq<TokenV>, i: int) -> Option<Seq<(Seq<char>, Seq<(Seq<char>, ValueV)>)>>
    decreases t.len() - i,
{
    if 0 <= i < t.len() && t[i] is Ident {
        match section_at(t, i + 1) {
            Some((es, j)) => if i < j <= t.len() {
                match config_from(t, j) {
                    Some(cs) => Some(seq![(t[i]->Ident_0, es)] + cs),
                    None => None,
                }
            } else {
                None
            },
            None => None,
        }
    } else {
        Some(Seq::empty())
    }
}

/// The configuration that a whole text writes, or `None` where it breaks
/// the grammar.
pub open spec fn config_of(s: Seq<char>) -> Option<Seq<(Seq<char>, Seq<(Seq<char>, ValueV)>)>> {
    config_from(tokens_of(s), 0)
}

pub open spec fn tokens_view(ts: Seq<Token>) -> Seq<TokenV> {
    ts.map_values(|t: Token| t@)
}

/// Reads values from the tokens of a lexer.
pub struct Parser {
    tokens: Vec<Token>,
    pos: usize,
}

fn channel(v: &Value) -> (r: Option<u8>)
    ensures
        r == channel_of(v@),
{
    match v {
        Value::Hex(h) => Some((*h & 255) as u8),
        Value::Number(n) => Some(*n),
        _ => None,
    }
}

impl Parser {
    /// The tokens being read.
    pub closed spec fn toks(&self) -> Seq<TokenV> {
        tokens_view(self.tokens@)
    }

    /// The position of the next token.
    pub closed spec fn at(&self) -> int {
        self.pos as int
    }

    pub open spec fn wf(&self) -> bool {
        0 <= self.at() <= self.toks().len()
    }

    /// A parser over the tokens that the lexer has still to give.
    pub fn new(lexer: &mut Lexer) -> (r: Self)
        requires
            old(lexer).wf(),
        ensures
            r.toks() == old(lexer).remaining(),
            r.at() == 0,
            r.wf(),
    {
        let ghost s = lexer.input();
        let ghost start = lexer.at();
        let mut tokens: Vec<Token> = Vec::new();
        loop
            invariant_except_break
                lex_all(s, start) == tokens_view(tokens@) + lex_all(s, lexer.at()),
            invariant
                lexer.wf(),
                lexer.input() == s,
            ensures
                lex_all(s, start) == tokens_view(tokens@),
            decreases s.len() - lexer.at(),
        {
            let ghost p = lexer.at();
            proof {
                lemma_lex_at_advances(s, p);
            }
            match lexer.next_token() {
                Some(t) => {
                    let ghost before = tokens@;
                    tokens.push(t);
                    assert(tokens_view(tokens@) =~= tokens_view(before).push(t@));
                    assert(tokens_view(before) + lex_all(s, p) =~= tokens_view(tokens@) + lex_all(
                        s,
                        lexer.at(),
                    ));
                },
                None => {
                    assert(tokens_view(tokens@) + Seq::<TokenV>::empty() =~= tokens_view(tokens@));
                    break;
                },
            }
        }
        Parser { tokens, pos: 0 }
    }

    fn peek(&self) -> (r: Option<&Token>)
        ensures
            r is Some <==> self.pos < self.tokens@.len(),
            r matches Some(t) ==> *t == self.tokens@[self.pos as int],
    {
        if self.pos < self.tokens.len() {
            Some(&self.tokens[self.pos])
        } else {
            None
        }
    }

    fn eat(&mut self)
        requires
            old(self).pos < old(self).tokens@.len(),
        ensures
            final(self).tokens == old(self).tokens,
            final(self).pos == old(self).pos + 1,
    {
        if self.pos < self.tokens.len() {
            self.pos = self.pos + 1;
        }
    }

    /// Reads named sections until the next token is not a name; `None` where
    /// a section breaks the grammar.
    pub fn parse(&mut self) -> (r: Option<Config>)
        requires
            old(self).wf(),
        ensures
            final(self).wf(),
            final(self).toks() == old(self).toks(),
            match config_from(old(self).toks(), old(self).at()) {
                Some(cs) => r matches Some(c) && c@ == cs,
                None => r is None,
            },
    {
        let ghost t = self.toks();
        let ghost start = self.at();
        let mut sections: OrderedMap<Section> = OrderedMap::new();
        proof {
            if let Some(cs) = config_from(t, self.at()) {
                assert(sections_view(sections.0@) + cs =~= cs);
            }
        }
        loop
            invariant_except_break
                config_from(t, start) == match config_from(t, self.at()) {
                    Some(cs) => Some(sections_view(sections.0@) + cs),
                    None => None,
                },
            invariant
                self.wf(),
                self.toks() == t,
                t == old(self).toks(),
                start == old(self).at(),
            ensures
                config_from(t, start) == Some(sections_view(sections.0@)),
            decreases t.len() - self.at(),
        {
            let ghost p = self.at();
            let name = match self.peek() {
                Some(Token::Ident(s)) => s.clone(),
                _ => {
                    assert(sections_view(sections.0@) + Seq::empty() =~= sections_view(sections.0@));
                    break;
                },
            };
            self.eat();
            match self.parse_section() {
                Some(sec) => {
                    let ghost before = sections.0@;
                    sections.insert(name, sec);
                    assert(sections_view(sections.0@) =~= sections_view(before).push(
                        (name@, entries_view(sec.0.0@)),
                    ));
                    proof {
                        if let Some(cs) = config_from(t, self.at()) {
                            assert(sections_view(before) + (seq![(name@, entries_view(sec.0.0@))] + cs)
                                =~= sections_view(sections.0@) + cs);
                        }
                    }
                },
                None => {
                    return None;
                },
            }
        }
        Some(Config::new(sections))
    }

    /// Reads a braced block of named values.
    pub fn parse_section(&mut self) -> (r: Option<Section>)
        requires
            old(self).wf(),
        ensures
            final(self).wf(),
            final(self).toks() == old(self).toks(),
            match section_at(old(self).toks(), old(self).at()) {
                Some((es, j)) => r matches Some(x) && x@ == es && final(self).at() == j,
                None => r is None,
            },
            r is Some ==> final(self).at() > old(self).at(),
        decreases old(self).toks().len() - old(self).at(), 0int,
    {
        let ghost t = self.toks();
        let ghost start = self.at();
        match self.peek() {
            Some(Token::LBrace) => {},
            _ => {
                return None;
            },
        }
        self.eat();
        let mut values: OrderedMap<Value> = OrderedMap::new();
        proof {
            if let Some((es, k)) = entries_from(t, self.at()) {
                assert(entries_view(values.0@) + es =~= es);
            }
        }
        loop
            invariant_except_break
                entries_from(t, start + 1) == prepend(entries_view(values.0@), entries_from(t, self.at())),
            invariant
                self.wf(),
                self.toks() == t,
                t == old(self).toks(),
                start == old(self).at(),
                start < self.at(),
            ensures
                entries_from(t, start + 1) == Some((entries_view(values.0@), self.at())),
            decreases t.len() - self.at(),
        {
            let ghost p = self.at();
            let name = match self.peek() {
                Some(Token::RBrace) => {
                    self.eat();
                    assert(entries_view(values.0@) + Seq::empty() =~= entries_view(values.0@));
                    break;
                },
                Some(Token::Ident(s)) => s.clone(),
                _ => {
                    return None;
                },
            };
            self.eat();
            match self.parse_value() {
                Some(v) => {
                    let ghost before = values.0@;
                    let ghost vv = v@;
                    values.insert(name, v);
                    assert(values.0@.drop_last() =~= before);
                    assert(entries_view(values.0@) == entries_view(before).push((name@, vv)));
                    proof {
                        if let Some((es, k)) = entries_from(t, self.at()) {
                            assert(entries_view(before) + (seq![(name@, vv)] + es) =~= entries_view(
                                values.0@,
                            ) + es);
                        }
                    }
                },
                None => {
                    return None;
                },
            }
        }
        Some(Section::new(values))
    }

    /// Reads one value: a section, an `rgb(r, g, b)` call, a name, a quoted
    /// string, a hexadecimal literal or a path.
    pub fn parse_value(&mut self) -> (r: Option<Value>)
        requires
            old(self).wf(),
        ensures
            final(self).wf(),
            final(self).toks() == old(self).toks(),
            match value_at(old(self).toks(), old(self).at()) {
                Some((v, j)) => r matches Some(x) && x@ == v && final(self).at() == j,
                None => r is None,
            },
            r is Some ==> final(self).at() > old(self).at(),
        decreases old(self).toks().len() - old(self).at(), 1int,
    {
        let ghost t = self.toks();
        if self.pos >= self.tokens.len() {
            return None;
        }
        assert(t[self.at()] == self.tokens@[self.at()]@);
        match &self.tokens[self.pos] {
            Token::LBrace => match self.parse_section() {
                Some(s) => Some(Value::Section(s)),
                None => None,
            },
            Token::Ident(s) => {
                let is_rgb = crate::text::same_text(s, "rgb");
                proof {
                    reveal_strlit("rgb");
                    assert("rgb"@ =~= rgb_name());
                }
                if is_rgb {
                    self.eat();
                    let params = match self.parse_params() {
                        Some(ps) => ps,
                        None => {
                            return None;
                        },
                    };
                    if params.len() != 3 {
                        return None;
                    }
                    let r = match channel(&params[0]) {
                        Some(c) => c,
                        None => {
                            return None;
                        },
                    };
                    let g = match channel(&params[1]) {
                        Some(c) => c,
                        None => {
                            return None;
                        },
                    };
                    let b = match channel(&params[2]) {
                        Some(c) => c,
                        None => {
                            return None;
                        },
                    };
                    Some(Value::RGB(r, g, b))
                } else {
                    let v = Value::Str(s.clone());
                    self.eat();
                    Some(v)
                }
            },
            Token::Str(s) => {
                let v = Value::Str(s.clone());
                self.eat();
                Some(v)
            },
            Token::Hex(s) => {
                match parse_hex_u32(s.as_str()) {
                    Some(h) => {
                        self.eat();
                        Some(Value::Hex(h))
                    },
                    None => None,
                }
            },
            Token::Path(p) => {
                let v = Value::Path(p.clone());
                self.eat();
                Some(v)
            },
            _ => None,
        }
    }

    /// Reads a parenthesised, comma-separated parameter list.
    fn parse_params(&mut self) -> (r: Option<Vec<Value>>)
        requires
            old(self).wf(),
        ensures
            final(self).wf(),
            final(self).toks() == old(self).toks(),
            match params_at(old(self).toks(), old(self).at()) {
                Some((ps, j)) => r matches Some(v) && v@.map_values(|x: Value| x@) == ps
                    && final(self).at() == j,
                None => r is None,
            },
            r is Some ==> final(self).at() > old(self).at(),
    {
        let ghost t = self.toks();
        let ghost start = self.at();
        match self.peek() {
            Some(Token::LParen) => {},
            _ => {
                return None;
            },
        }
        self.eat();
        let mut params: Vec<Value> = Vec::new();
        let mut first = true;
        loop
            invariant_except_break
                params_from(t, start + 1, true) == prepend(
                    params@.map_values(|x: Value| x@),
                    params_from(t, self.at(), first),
                ),
                first ==> params@.len() == 0,
            invariant
                self.wf(),
                self.toks() == t,
                t == old(self).toks(),
                start == old(self).at(),
                start < self.at(),
            ensures
                params_from(t, start + 1, true) == Some((params@.map_values(|x: Value| x@), self.at())),
            decreases t.len() - self.at(),
        {
            let ghost p = self.at();
            let ghost before = params@;
            if self.pos >= self.tokens.len() {
                return None;
            }
            assert(t[p] == self.tokens@[p]@);
            let param = match &self.tokens[self.pos] {
                Token::RParen => {
                    if !first {
                        return None;
                    }
                    self.eat();
                    assert(before.map_values(|x: Value| x@) + Seq::empty() =~= before.map_values(
                        |x: Value| x@,
                    ));
                    break;
                },
                Token::Ident(s) => Value::Str(s.clone()),
                Token::Str(s) => Value::Str(s.clone()),
                Token::Hex(s) => match parse_hex_u32(s.as_str()) {
                    Some(h) => Value::Hex(h),
                    None => {
                        return None;
                    },
                },
                Token::Number(s) => match parse_decimal_u8(s.as_str()) {
                    Some(n) => Value::Number(n),
                    None => {
                        return None;
                    },
                },
                Token::Path(s) => Value::Path(s.clone()),
                _ => {
                    return None;
                },
            };
            let ghost pv = param@;
            assert(param_of(t[p]) == Some(pv));
            params.push(param);
            assert(params@.map_values(|x: Value| x@) =~= before.map_values(|x: Value| x@).push(pv));
            self.eat();
            if self.pos >= self.tokens.len() {
                return None;
            }
            assert(t[p + 1] == self.tokens@[p + 1]@);
            match &self.tokens[self.pos] {
                Token::Comma => {
                    self.eat();
                    first = false;
                    proof {
                        if let Some((xs, k)) = params_from(t, self.at(), false) {
                            assert(before.map_values(|x: Value| x@) + (seq![pv] + xs)
                                =~= params@.map_values(|x: Value| x@) + xs);
                        }
                    }
                },
                Token::RParen => {
                    self.eat();
                    break;
                },
                _ => {
                    return None;
                },
            }
        }
        Some(params)
    }
}

/// The configuration that a text writes, or `None` where it breaks the
/// grammar.
pub fn parse_config(buf: &str) -> (r: Option<Config>)
    ensures
        match config_of(buf@) {
            Some(cs) => r matches Some(c) && c@ == cs,
            None => r is None,
        },
{
    let mut lexer = Lexer::new(buf);
    let mut parser = Parser::new(&mut lexer);
    parser.parse()
}

} // verus!
