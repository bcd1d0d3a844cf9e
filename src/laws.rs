//! Properties that relate several operations of the library.
use vstd::prelude::*;
use crate::color::hex_digit_char;
use crate::config::ValueV;
use crate::digits::{all_hex_digits, hex_digit, hex_digit_value, hex_u32_ok, hex_value, unsigned_digits};
use crate::lexer::{hex_char, hex_end, lex_all, lex_at, skip_ws, tokens_of};
use crate::map::lookup;
use crate::parser::{hex_literal, value_at};
use crate::token::TokenV;

verus! {

/// `n` written in lowercase hexadecimal, without leading zeros.
pub open spec fn hex_text(n: nat) -> Seq<char>
    decreases n,
{
    if n < 16 {
        seq![hex_digit_char(n as int)]
    } else {
        hex_text(n / 16).push(hex_digit_char((n % 16) as int))
    }
}

proof fn lemma_digit_char(k: int)
    requires
        0 <= k < 16,
    ensures
        hex_digit(hex_digit_char(k)),
        hex_char(hex_digit_char(k)),
        hex_digit_value(hex_digit_char(k)) == k,
        hex_digit_char(k) != '+',
{
    let c = hex_digit_char(k);
    if k < 10 {
        assert(c as int == 48 + k);
    } else {
        assert(c as int == 87 + k);
    }
}

proof fn lemma_hex_text(n: nat)
    ensures
        hex_text(n).len() >= 1,
        all_hex_digits(hex_text(n)),
        forall|i: int| 0 <= i < hex_text(n).len() ==> hex_char(#[trigger] hex_text(n)[i]),
        hex_text(n)[0] != '+',
        hex_value(hex_text(n)) == n,
    decreases n,
{
    if n < 16 {
        lemma_digit_char(n as int);
        let t = hex_text(n);
        assert(t.drop_last() =~= Seq::<char>::empty());
        assert(t.last() == hex_digit_char(n as int));
        assert(hex_value(Seq::<char>::empty()) == 0);
    } else {
        lemma_hex_text(n / 16);
        lemma_digit_char((n % 16) as int);
        let t = hex_text(n);
        assert(t.drop_last() =~= hex_text(n / 16));
        assert(t.last() == hex_digit_char((n % 16) as int));
        assert((n / 16) * 16 + n % 16 == n) by (nonlinear_arith);
    }
}

proof fn lemma_hex_end_all(s: Seq<char>, i: int)
    requires
        0 <= i <= s.len(),
        forall|k: int| i <= k < s.len() ==> hex_char(#[trigger] s[k]),
    ensures
        hex_end(s, i) == s.len(),
    decreases s.len() - i,
{
    if i < s.len() {
        lemma_hex_end_all(s, i + 1);
    }
}

/// Lexing `#` followed by the hexadecimal digits of a 24-bit number, then
/// parsing the tokens as a value, gives that number back.
pub proof fn lemma_hex_round_trip(n: nat)
    requires
        n <= 0xFFFFFF,
    ensures
        value_at(tokens_of(seq!['#'] + hex_text(n)), 0) == Some((ValueV::Hex(n as u32), 1int)),
{
    let d = hex_text(n);
    lemma_hex_text(n);
    let s = seq!['#'] + d;
    assert forall|k: int| 1 <= k < s.len() implies hex_char(#[trigger] s[k]) by {
        assert(s[k] == d[k - 1]);
    }
    lemma_hex_end_all(s, 1);
    assert(s[0] == '#');
    assert(skip_ws(s, 0) == 0);
    assert(s.subrange(1, s.len() as int) =~= d);
    assert(lex_at(s, 0) == Some((TokenV::Hex(d), s.len() as int)));
    assert(skip_ws(s, s.len() as int) == s.len());
    assert(lex_at(s, s.len() as int) is None);
    assert(lex_all(s, s.len() as int) =~= Seq::<TokenV>::empty());
    assert(lex_all(s, 0) =~= seq![TokenV::Hex(d)]);
    assert(unsigned_digits(d) == d);
    assert(hex_u32_ok(d));
    assert(hex_literal(d) == n as u32);
}

/// Once a name is in a map, inserting it again does not change what a
/// lookup of it finds: the first entry wins.
pub proof fn lemma_first_wins<T>(ps: Seq<(Seq<char>, T)>, name: Seq<char>, v: T)
    requires
        lookup(ps, name) is Some,
    ensures
        lookup(ps.push((name, v)), name) == lookup(ps, name),
    decreases ps.len(),
{
    if ps[0].0 != name {
        assert(ps.push((name, v)).drop_first() =~= ps.drop_first().push((name, v)));
        lemma_first_wins(ps.drop_first(), name, v);
    }
}

/// Inserting a name into a map that lacks it makes a lookup find the new
/// value.
pub proof fn lemma_insert_new<T>(ps: Seq<(Seq<char>, T)>, name: Seq<char>, v: T)
    requires
        lookup(ps, name) is None,
    ensures
        lookup(ps.push((name, v)), name) == Some(v),
    decreases ps.len(),
{
    if ps.len() == 0 {
        assert(ps.push((name, v))[0] == (name, v));
    } else {
        assert(ps.push((name, v)).drop_first() =~= ps.drop_first().push((name, v)));
        lemma_insert_new(ps.drop_first(), name, v);
    }
}

} // verus!
