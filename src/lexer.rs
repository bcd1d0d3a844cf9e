//! The lexer of the configuration language.
use vstd::prelude::*;
use crate::text::{
    ascii_letter, chars_of, is_alphabetic, is_numeric, is_whitespace, letter, numeric, push_char,
    space, string_of,
};
use crate::token::{Token, TokenV};

verus! {

pub open spec fn path_start(c: char) -> bool {
    c == '~' || c == '/' || c == '.'
}

pub open spec fn hex_char(c: char) -> bool {
    ('0' <= c && c <= '9') || ('a' <= c && c <= 'f') || ('A' <= c && c <= 'F')
}

/// A character that may follow the first letter of an identifier.
pub open spec fn ident_char(c: char) -> bool {
    ascii_letter(c) || ('0' <= c && c <= '9') || c == '_'
}

/// The first position at or after `i` that does not hold whitespace.
pub open spec fn skip_ws(s: Seq<char>, i: int) -> int
    decreases s.len() - i,
{
    if 0 <= i < s.len() && space(s[i]) {
        skip_ws(s, i + 1)
    } else {
        i
    }
}

/// The end of the run of identifier characters that starts at `i`.
pub open spec fn ident_end(s: Seq<char>, i: int) -> int
    decreases s.len() - i,
{
    if 0 <= i < s.len() && ident_char(s[i]) {
        ident_end(s, i + 1)
    } else {
        i
    }
}

/// The end of the run of number characters that starts at `i`.
pub open spec fn number_end(s: Seq<char>, i: int) -> int
    decreases s.len() - i,
{
    if 0 <= i < s.len() && numeric(s[i]) {
        number_end(s, i + 1)
    } else {
        i
    }
}

/// The end of the run of hexadecimal digits that starts at `i`.
pub open spec fn hex_end(s: Seq<char>, i: int) -> int
    decreases s.len() - i,
{
    if 0 <= i < s.len() && hex_char(s[i]) {
        hex_end(s, i + 1)
    } else {
        i
    }
}

/// A path read from `i`: its text, and the position after it and the
/// whitespace character that ends it. A backslash before a space keeps the
/// space in the path.
pub open spec fn path_scan(s: Seq<char>, i: int) -> (Seq<char>, int)
    decreases s.len() - i,
{
    if i < 0 || i >= s.len() {
        (Seq::empty(), i)
    } else if space(s[i]) {
        (Seq::empty(), i + 1)
    } else if s[i] == '\\' && i + 1 < s.len() && s[i + 1] == ' ' {
        let r = path_scan(s, i + 2);
        (seq![' '] + r.0, r.1)
    } else {
        let r = path_scan(s, i + 1);
        (seq![s[i]] + r.0, r.1)
    }
}

/// The body of a quoted string whose opening quote stands before `i`: its
/// text, and the position after the closing quote (or the end of the input).
/// A backslash before a quote stands for the quote.
pub open spec fn quoted_scan(s: Seq<char>, i: int) -> (Seq<char>, int)
    decreases s.len() - i,
{
    if i < 0 || i >= s.len() {
        (Seq::empty(), i)
    } else if s[i] == '"' {
        (Seq::empty(), i + 1)
    } else if s[i] == '\\' && i + 1 < s.len() && s[i + 1] == '"' {
        let r = quoted_scan(s, i + 2);
        (seq!['"'] + r.0, r.1)
    } else {
        let r = quoted_scan(s, i + 1);
        (seq![s[i]] + r.0, r.1)
    }
}

/// The token of a quoted text: a path where the text starts like one.
pub open spec fn quoted_token(t: Seq<char>) -> TokenV {
    if t.len() > 0 && path_start(t[0]) {
        TokenV::Path(t)
    } else {
        TokenV::Str(t)
    }
}

/// The token that starts at or after position `i` of `s`, past whitespace,
/// and the position after it; `None` at the end of the input and before a
/// character that starts no token.
pub open spec fn lex_at(s: Seq<char>, i: int) -> Option<(TokenV, int)> {
    let j = skip_ws(s, i);
    if j < 0 || j >= s.len() {
        None
    } else {
        let c = s[j];
        if path_start(c) {
            let r = path_scan(s, j);
            Some((TokenV::Path(r.0), r.1))
        } else if letter(c) {
            let e = ident_end(s, j + 1);
            Some((TokenV::Ident(s.subrange(j, e)), e))
        } else if numeric(c) {
            let e = number_end(s, j);
            Some((TokenV::Number(s.subrange(j, e)), e))
        } else if c == '"' {
            let r = quoted_scan(s, j + 1);
            Some((quoted_token(r.0), r.1))
        } else if c == '#' {
            let e = hex_end(s, j + 1);
            Some((TokenV::Hex(s.subrange(j + 1, e)), e))
        } else if c == '{' {
            Some((TokenV::LBrace, j + 1))
        } else if c == '}' {
            Some((TokenV::RBrace, j + 1))
        } else if c == '(' {
            Some((TokenV::LParen, j + 1))
        } else if c == ')' {
            Some((TokenV::RParen, j + 1))
        } else if c == ',' {
            Some((TokenV::Comma, j + 1))
        } else {
            None
        }
    }
}

/// All tokens from position `i` on, up to the end of the input or the first
/// character that starts no token.
pub open spec fn lex_all(s: Seq<char>, i: int) -> Seq<TokenV>
    decreases s.len() - i,
{
    match lex_at(s, i) {
        Some((t, e)) => if i < e <= s.len() {
            seq![t] + lex_all(s, e)
        } else {
            Seq::empty()
        },
        None => Seq::empty(),
    }
}

/// The tokens of a whole text.
pub open spec fn tokens_of(s: Seq<char>) -> Seq<TokenV> {
    lex_all(s, 0)
}

pub proof fn lemma_skip_ws_bounds(s: Seq<char>, i: int)
    requires
        0 <= i <= s.len(),
    ensures
        i <= skip_ws(s, i) <= s.len(),
    decreases s.len() - i,
{
    if 0 <= i < s.len() && space(s[i]) {
        lemma_skip_ws_bounds(s, i + 1);
    }
}

pub proof fn lemma_ident_end_bounds(s: Seq<char>, i: int)
    requires
        0 <= i <= s.len(),
    ensures
        i <= ident_end(s, i) <= s.len(),
    decreases s.len() - i,
{
    if 0 <= i < s.len() && ident_char(s[i]) {
        lemma_ident_end_bounds(s, i + 1);
    }
}

pub proof fn lemma_number_end_bounds(s: Seq<char>, i: int)
    requires
        0 <= i <= s.len(),
    ensures
        i <= number_end(s, i) <= s.len(),
    decreases s.len() - i,
{
    if 0 <= i < s.len() && numeric(s[i]) {
        lemma_number_end_bounds(s, i + 1);
    }
}

pub proof fn lemma_hex_end_bounds(s: Seq<char>, i: int)
    requires
        0 <= i <= s.len(),
    ensures
        i <= hex_end(s, i) <= s.len(),
    decreases s.len() - i,
{
    if 0 <= i < s.len() && hex_char(s[i]) {
        lemma_hex_end_bounds(s, i + 1);
    }
}

pub proof fn lemma_path_scan_bounds(s: Seq<char>, i: int)
    requires
        0 <= i <= s.len(),
    ensures
        i <= path_scan(s, i).1 <= s.len(),
        i < s.len() ==> i < path_scan(s, i).1,
    decreases s.len() - i,
{
    if i < s.len() && !space(s[i]) {
        if s[i] == '\\' && i + 1 < s.len() && s[i + 1] == ' ' {
            lemma_path_scan_bounds(s, i + 2);
        } else {
            lemma_path_scan_bounds(s, i + 1);
        }
    }
}

pub proof fn lemma_quoted_scan_bounds(s: Seq<char>, i: int)
    requires
        0 <= i <= s.len(),
    ensures
        i <= quoted_scan(s, i).1 <= s.len(),
    decreases s.len() - i,
{
    if i < s.len() && s[i] != '"' {
        if s[i] == '\\' && i + 1 < s.len() && s[i + 1] == '"' {
            lemma_quoted_scan_bounds(s, i + 2);
        } else {
            lemma_quoted_scan_bounds(s, i + 1);
        }
    }
}

/// A token always moves the position forward, and never past the input.
pub proof fn lemma_lex_at_advances(s: Seq<char>, i: int)
    requires
        0 <= i <= s.len(),
    ensures
        lex_at(s, i) matches Some((t, e)) ==> i < e <= s.len(),
{
    lemma_skip_ws_bounds(s, i);
    let j = skip_ws(s, i);
    if j < s.len() {
        lemma_path_scan_bounds(s, j);
        lemma_ident_end_bounds(s, j);
        lemma_number_end_bounds(s, j);
        lemma_quoted_scan_bounds(s, j + 1);
        lemma_hex_end_bounds(s, j + 1);
        lemma_ident_end_bounds(s, j + 1);
        if numeric(s[j]) {
            assert(number_end(s, j) == number_end(s, j + 1));
            lemma_number_end_bounds(s, j + 1);
        }
    }
}

/// Reads tokens from a text, one at a time.
pub struct Lexer {
    buf: Vec<char>,
    pos: usize,
}

fn is_start_of_path(c: char) -> (r: bool)
    ensures
        r == path_start(c),
{
    c == '~' || c == '/' || c == '.'
}

fn is_ident_char(c: char) -> (r: bool)
    ensures
        r == ident_char(c),
{
    ('a' <= c && c <= 'z') || ('A' <= c && c <= 'Z') || ('0' <= c && c <= '9') || c == '_'
}

fn is_hex(c: char) -> (r: bool)
    ensures
        r == hex_char(c),
{
    ('0' <= c && c <= '9') || ('a' <= c && c <= 'f') || ('A' <= c && c <= 'F')
}

impl Lexer {
    /// The whole text being read.
    pub closed spec fn input(&self) -> Seq<char> {
        self.buf@
    }

    /// The position of the next character to read.
    pub closed spec fn at(&self) -> int {
        self.pos as int
    }

    /// The tokens that are still to come.
    pub open spec fn remaining(&self) -> Seq<TokenV> {
        lex_all(self.input(), self.at())
    }

    pub open spec fn wf(&self) -> bool {
        0 <= self.at() <= self.input().len()
    }

    pub fn new(buf: &str) -> (r: Self)
        ensures
            r.input() == buf@,
            r.at() == 0,
            r.wf(),
    {
        Lexer { buf: chars_of(buf), pos: 0 }
    }

    fn peek(&self) -> (r: Option<char>)
        ensures
            r == (if self.pos < self.buf@.len() { Some(self.buf@[self.pos as int]) } else { None::<char> }),
    {
        if self.pos < self.buf.len() {
            Some(self.buf[self.pos])
        } else {
            None
        }
    }

    fn eat(&mut self) -> (r: Option<char>)
        requires
            old(self).wf(),
        ensures
            final(self).wf(),
            final(self).buf@ == old(self).buf@,
            r == (if old(self).pos < old(self).buf@.len() { Some(old(self).buf@[old(self).pos as int]) } else { None::<char> }),
            final(self).pos == (if old(self).pos < old(self).buf@.len() { old(self).pos + 1 } else { old(self).pos as int }),
    {
        if self.pos < self.buf.len() {
            let c = self.buf[self.pos];
            self.pos = self.pos + 1;
            Some(c)
        } else {
            None
        }
    }

    fn next_is(&self, d: char) -> (r: bool)
        ensures
            r == (self.pos < self.buf@.len() && self.buf@[self.pos as int] == d),
    {
        self.pos < self.buf.len() && self.buf[self.pos] == d
    }

    /// The next token, or `None` at the end of the input or before a
    /// character that starts no token.
    pub fn next_token(&mut self) -> (r: Option<Token>)
        requires
            old(self).wf(),
        ensures
            final(self).wf(),
            final(self).input() == old(self).input(),
            match lex_at(old(self).input(), old(self).at()) {
                Some((t, e)) => r matches Some(tok) && tok@ == t && final(self).at() == e,
                None => r is None && final(self).at() == skip_ws(old(self).input(), old(self).at()),
            },
    {
        let ghost s = self.buf@;
        let ghost start = self.pos as int;
        while self.pos < self.buf.len() && is_whitespace(self.buf[self.pos])
            invariant
                self.wf(),
                self.buf@ == s,
                start <= self.pos,
                skip_ws(s, start) == skip_ws(s, self.pos as int),
            decreases s.len() - self.pos,
        {
            self.pos = self.pos + 1;
        }
        assert(skip_ws(s, start) == self.pos as int);
        if self.pos >= self.buf.len() {
            return None;
        }
        let c = self.buf[self.pos];
        if is_start_of_path(c) {
            self.lex_path()
        } else if is_alphabetic(c) {
            self.lex_ident()
        } else if is_numeric(c) {
            self.lex_number()
        } else if c == '"' {
            self.lex_str()
        } else if c == '#' {
            self.lex_hex()
        } else if c == '{' {
            self.lex_simple(Token::LBrace)
        } else if c == '}' {
            self.lex_simple(Token::RBrace)
        } else if c == '(' {
            self.lex_simple(Token::LParen)
        } else if c == ')' {
            self.lex_simple(Token::RParen)
        } else if c == ',' {
            self.lex_simple(Token::Comma)
        } else {
            None
        }
    }

    fn lex_path(&mut self) -> (r: Option<Token>)
        requires
            old(self).wf(),
        ensures
            final(self).wf(),
            final(self).buf@ == old(self).buf@,
            r == Some(Token::Path(r->0->Path_0)),
            r->0@ == TokenV::Path(path_scan(old(self).buf@, old(self).pos as int).0),
            final(self).pos == path_scan(old(self).buf@, old(self).pos as int).1,
    {
        let ghost s = self.buf@;
        let ghost start = self.pos as int;
        let mut path = String::new();
        loop
            invariant_except_break
                path_scan(s, start).0 == path@ + path_scan(s, self.pos as int).0,
                path_scan(s, start).1 == path_scan(s, self.pos as int).1,
            invariant
                self.wf(),
                self.buf@ == s,
            ensures
                path_scan(s, start).0 == path@,
                path_scan(s, start).1 == self.pos,
            decreases s.len() - self.pos,
        {
            let ghost p = self.pos as int;
            match self.eat() {
                None => {
                    assert(path@ + Seq::<char>::empty() =~= path@);
                    break;
                },
                Some(c) => {
                    if is_whitespace(c) {
                        assert(path@ + Seq::<char>::empty() =~= path@);
                        break;
                    }
                    if c == '\\' && self.next_is(' ') {
                        self.eat();
                        let ghost before = path@;
                        push_char(&mut path, ' ');
                        assert(before + path_scan(s, p).0 =~= path@ + path_scan(s, self.pos as int).0);
                    } else {
                        let ghost before = path@;
                        push_char(&mut path, c);
                        assert(before + path_scan(s, p).0 =~= path@ + path_scan(s, self.pos as int).0);
                    }
                },
            }
        }
        Some(Token::Path(path))
    }

    fn lex_ident(&mut self) -> (r: Option<Token>)
        requires
            old(self).wf(),
            old(self).pos < old(self).buf@.len(),
        ensures
            final(self).wf(),
            final(self).buf@ == old(self).buf@,
            r matches Some(t) && t@ == TokenV::Ident(
                old(self).buf@.subrange(old(self).pos as int, ident_end(old(self).buf@, old(self).pos + 1)),
            ),
            final(self).pos == ident_end(old(self).buf@, old(self).pos + 1),
    {
        let ghost s = self.buf@;
        let start = self.pos;
        self.eat();
        while self.pos < self.buf.len() && is_ident_char(self.buf[self.pos])
            invariant
                self.wf(),
                self.buf@ == s,
                start < self.pos,
                ident_end(s, start + 1) == ident_end(s, self.pos as int),
            decreases s.len() - self.pos,
        {
            self.pos = self.pos + 1;
        }
        Some(Token::Ident(string_of(&self.buf, start, self.pos)))
    }

    fn lex_number(&mut self) -> (r: Option<Token>)
        requires
            old(self).wf(),
        ensures
            final(self).wf(),
            final(self).buf@ == old(self).buf@,
            r matches Some(t) && t@ == TokenV::Number(
                old(self).buf@.subrange(old(self).pos as int, number_end(old(self).buf@, old(self).pos as int)),
            ),
            final(self).pos == number_end(old(self).buf@, old(self).pos as int),
    {
        let ghost s = self.buf@;
        let start = self.pos;
        while self.pos < self.buf.len() && is_numeric(self.buf[self.pos])
            invariant
                self.wf(),
                self.buf@ == s,
                start <= self.pos,
                number_end(s, start as int) == number_end(s, self.pos as int),
            decreases s.len() - self.pos,
        {
            self.pos = self.pos + 1;
        }
        Some(Token::Number(string_of(&self.buf, start, self.pos)))
    }

    fn lex_hex(&mut self) -> (r: Option<Token>)
        requires
            old(self).wf(),
            old(self).pos < old(self).buf@.len(),
            old(self).buf@[old(self).pos as int] == '#',
        ensures
            final(self).wf(),
            final(self).buf@ == old(self).buf@,
            r matches Some(t) && t@ == TokenV::Hex(
                old(self).buf@.subrange(old(self).pos + 1, hex_end(old(self).buf@, old(self).pos + 1)),
            ),
            final(self).pos == hex_end(old(self).buf@, old(self).pos + 1),
    {
        let ghost s = self.buf@;
        self.eat();
        let start = self.pos;
        while self.pos < self.buf.len() && is_hex(self.buf[self.pos])
            invariant
                self.wf(),
                self.buf@ == s,
                start <= self.pos,
                hex_end(s, start as int) == hex_end(s, self.pos as int),
            decreases s.len() - self.pos,
        {
            self.pos = self.pos + 1;
        }
        Some(Token::Hex(string_of(&self.buf, start, self.pos)))
    }

    fn lex_str(&mut self) -> (r: Option<Token>)
        requires
            old(self).wf(),
            old(self).pos < old(self).buf@.len(),
            old(self).buf@[old(self).pos as int] == '"',
        ensures
            final(self).wf(),
            final(self).buf@ == old(self).buf@,
            r matches Some(t) && t@ == quoted_token(quoted_scan(old(self).buf@, old(self).pos + 1).0),
            final(self).pos == quoted_scan(old(self).buf@, old(self).pos + 1).1,
    {
        let ghost s = self.buf@;
        self.eat();
        let ghost start = self.pos as int;
        let mut text = String::new();
        loop
            invariant_except_break
                quoted_scan(s, start).0 == text@ + quoted_scan(s, self.pos as int).0,
                quoted_scan(s, start).1 == quoted_scan(s, self.pos as int).1,
            invariant
                self.wf(),
                self.buf@ == s,
            ensures
                quoted_scan(s, start).0 == text@,
                quoted_scan(s, start).1 == self.pos,
            decreases s.len() - self.pos,
        {
            let ghost p = self.pos as int;
            match self.eat() {
                None => {
                    assert(text@ + Seq::<char>::empty() =~= text@);
                    break;
                },
                Some(c) => {
                    if c == '"' {
                        assert(text@ + Seq::<char>::empty() =~= text@);
                        break;
                    }
                    let ghost before = text@;
                    if c == '\\' && self.next_is('"') {
                        self.eat();
                        push_char(&mut text, '"');
                    } else {
                        push_char(&mut text, c);
                    }
                    assert(before + quoted_scan(s, p).0 =~= text@ + quoted_scan(s, self.pos as int).0);
                },
            }
        }
        let chars = chars_of(text.as_str());
        if chars.len() > 0 && is_start_of_path(chars[0]) {
            Some(Token::Path(text))
        } else {
            Some(Token::Str(text))
        }
    }

    fn lex_simple(&mut self, token: Token) -> (r: Option<Token>)
        requires
            old(self).wf(),
            old(self).pos < old(self).buf@.len(),
        ensures
            final(self).wf(),
            final(self).buf@ == old(self).buf@,
            final(self).pos == old(self).pos + 1,
            r == Some(token),
    {
        self.eat();
        Some(token)
    }
}

} // verus!
