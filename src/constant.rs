//! Constants: the typed values that literals decode to, and their
//! canonical source text.
use vstd::prelude::*;

use crate::error::DError;
use crate::lexer::{
    all_digits, bool_literal, char_literal, chars_of, float_literal, int_literal, kw_hamis, kw_igaz,
    lex_bool, lex_char, lex_float, lex_int, lex_string, push_char, string_literal, FloatLit, FloatV,
};

verus! {

/// A literal value.
#[derive(Debug, Clone, PartialEq)]
pub enum Constant {
    Int(i32),
    Float(FloatLit),
    Boolean(bool),
    Char(char),
    String(String),
}

/// A literal value as plain values.
pub enum ConstV {
    Int(i32),
    Float(FloatV),
    Boolean(bool),
    Char(char),
    Str(Seq<char>),
}

impl View for Constant {
    type V = ConstV;

    open spec fn view(&self) -> ConstV {
        match self {
            Constant::Int(i) => ConstV::Int(*i),
            Constant::Float(f) => ConstV::Float(f@),
            Constant::Boolean(b) => ConstV::Boolean(*b),
            Constant::Char(c) => ConstV::Char(*c),
            Constant::String(s) => ConstV::Str(s@),
        }
    }
}

pub open spec fn const_result(r: Result<Constant, DError>) -> Result<ConstV, DError> {
    match r {
        Ok(c) => Ok(c@),
        Err(e) => Err(e),
    }
}

/// The constant that the literal text `s` stands for: a boolean keyword, a
/// quoted character or string, a float, or else an integer.
pub open spec fn literal(s: Seq<char>) -> Result<ConstV, DError> {
    match bool_literal(s) {
        Some(b) => Ok(ConstV::Boolean(b)),
        None => if s.len() > 0 && s[0] == '\'' {
            match char_literal(s) {
                Ok(c) => Ok(ConstV::Char(c)),
                Err(e) => Err(e),
            }
        } else if s.len() > 0 && s[0] == '"' {
            match string_literal(s) {
                Ok(t) => Ok(ConstV::Str(t)),
                Err(e) => Err(e),
            }
        } else {
            match float_literal(s) {
                Ok(f) => Ok(ConstV::Float(f)),
                Err(_) => match int_literal(s) {
                    Ok(i) => Ok(ConstV::Int(i)),
                    Err(e) => Err(e),
                },
            }
        },
    }
}

/// Decodes the literal `v[lo..hi]`.
pub fn lex_literal(v: &Vec<char>, lo: usize, hi: usize) -> (r: Result<Constant, DError>)
    requires
        lo <= hi <= v@.len(),
    ensures
        const_result(r) == literal(v@.subrange(lo as int, hi as int)),
{
    let ghost s = v@.subrange(lo as int, hi as int);
    if let Some(b) = lex_bool(v, lo, hi) {
        return Ok(Constant::Boolean(b));
    }
    if lo < hi && v[lo] == '\'' {
        assert(s[0] == v@[lo as int]);
        match lex_char(v, lo, hi) {
            Ok(c) => Ok(Constant::Char(c)),
            Err(e) => Err(e),
        }
    } else if lo < hi && v[lo] == '"' {
        assert(s[0] == v@[lo as int]);
        match lex_string(v, lo, hi) {
            Ok(t) => Ok(Constant::String(t)),
            Err(e) => Err(e),
        }
    } else {
        proof {
            if lo < hi {
                assert(s[0] == v@[lo as int]);
            }
        }
        match lex_float(v, lo, hi) {
            Ok(f) => Ok(Constant::Float(f)),
            Err(_) => match lex_int(v, lo, hi) {
                Ok(i) => Ok(Constant::Int(i)),
                Err(e) => Err(e),
            },
        }
    }
}

/// Decodes a literal from its source text.
pub fn lex_constant(text: &str) -> (r: Result<Constant, DError>)
    ensures
        const_result(r) == literal(text@),
{
    let v = chars_of(text);
    assert(v@.subrange(0, v@.len() as int) =~= text@);
    lex_literal(&v, 0, v.len())
}

pub open spec fn digit_char(d: nat) -> char {
    seq!['0', '1', '2', '3', '4', '5', '6', '7', '8', '9'][d as int]
}

/// The decimal digits of `n`, most significant first.
pub open spec fn nat_text(n: nat) -> Seq<char>
    decreases n,
{
    if n < 10 {
        seq![digit_char(n)]
    } else {
        nat_text(n / 10).push(digit_char(n % 10))
    }
}

/// The decimal text of `i`, with a `-` when it is negative.
pub open spec fn int_text(i: int) -> Seq<char> {
    if i < 0 {
        seq!['-'] + nat_text((-i) as nat)
    } else {
        nat_text(i as nat)
    }
}

/// The text of a float literal: its sign, digits, a point and digits.
pub open spec fn float_text(f: FloatV) -> Seq<char> {
    (if f.negative {
        seq!['-']
    } else {
        Seq::empty()
    }) + f.whole + seq!['.'] + f.frac
}

/// How `c` is written inside a character or string literal.
pub open spec fn escaped(c: char) -> Seq<char> {
    if c == '\0' {
        seq!['\\', '0']
    } else if c == '\n' {
        seq!['\\', 'n']
    } else if c == '\r' {
        seq!['\\', 'r']
    } else if c == '\t' {
        seq!['\\', 't']
    } else if c == '"' || c == '\'' || c == '\\' {
        seq!['\\', c]
    } else {
        seq![c]
    }
}

/// How `c` is written inside a string literal: as inside a character
/// literal, except that a single quote stays raw.
pub open spec fn escaped_in_string(c: char) -> Seq<char> {
    if c == '\'' {
        seq![c]
    } else {
        escaped(c)
    }
}

/// How `s` is written inside a string literal.
pub open spec fn escaped_all(s: Seq<char>) -> Seq<char>
    decreases s.len(),
{
    if s.len() == 0 {
        Seq::empty()
    } else {
        escaped_in_string(s[0]) + escaped_all(s.skip(1))
    }
}

/// The canonical source text of a constant.
pub open spec fn const_text(c: ConstV) -> Seq<char> {
    match c {
        ConstV::Int(i) => int_text(i as int),
        ConstV::Float(f) => float_text(f),
        ConstV::Boolean(b) => if b {
            kw_igaz()
        } else {
            kw_hamis()
        },
        ConstV::Char(ch) => seq!['\''] + escaped(ch) + seq!['\''],
        ConstV::Str(s) => seq!['"'] + escaped_all(s) + seq!['"'],
    }
}

/// A float literal holds at least one digit on each side of the point,
/// with no leading zero before it and no trailing zero after it but a lone
/// `0`.
pub open spec fn float_wf(f: FloatV) -> bool {
    &&& f.whole.len() > 0 && all_digits(f.whole)
    &&& f.frac.len() > 0 && all_digits(f.frac)
    &&& (f.whole.len() == 1 || f.whole[0] != '0')
    &&& (f.frac.len() == 1 || f.frac.last() != '0')
}

/// A constant that a literal can denote.
pub open spec fn const_wf(c: ConstV) -> bool {
    match c {
        ConstV::Float(f) => float_wf(f),
        _ => true,
    }
}

/// Appends the decimal digits of `n`.
fn push_nat_text(s: &mut String, n: u64)
    ensures
        final(s)@ == old(s)@ + nat_text(n as nat),
    decreases n,
{
    let digits = vec!['0', '1', '2', '3', '4', '5', '6', '7', '8', '9'];
    assert(digits@ =~= seq!['0', '1', '2', '3', '4', '5', '6', '7', '8', '9']);
    if n >= 10 {
        push_nat_text(s, n / 10);
    }
    push_char(s, digits[(n % 10) as usize]);
    proof {
        if n < 10 {
            assert(n % 10 == n);
            assert(nat_text(n as nat) =~= seq![digit_char(n as nat)]);
        }
        assert(final(s)@ =~= old(s)@ + nat_text(n as nat));
    }
}

/// Appends the characters of `t`.
fn push_all(s: &mut String, t: &Vec<char>)
    ensures
        final(s)@ == old(s)@ + t@,
{
    let mut i: usize = 0;
    while i < t.len()
        invariant
            i <= t@.len(),
            s@ == old(s)@ + t@.take(i as int),
        decreases t@.len() - i,
    {
        push_char(s, t[i]);
        assert(s@ =~= old(s)@ + t@.take(i + 1));
        i = i + 1;
    }
    assert(t@.take(i as int) =~= t@);
}

/// Appends `c` as written inside a literal.
fn push_escaped(s: &mut String, c: char)
    ensures
        final(s)@ == old(s)@ + escaped(c),
{
    let e: Vec<char> = if c == '\0' {
        vec!['\\', '0']
    } else if c == '\n' {
        vec!['\\', 'n']
    } else if c == '\r' {
        vec!['\\', 'r']
    } else if c == '\t' {
        vec!['\\', 't']
    } else if c == '"' || c == '\'' || c == '\\' {
        vec!['\\', c]
    } else {
        vec![c]
    };
    assert(e@ =~= escaped(c));
    push_all(s, &e);
}

/// Appends `c` as written inside a string literal.
fn push_escaped_in_string(s: &mut String, c: char)
    ensures
        final(s)@ == old(s)@ + escaped_in_string(c),
{
    if c == '\'' {
        push_char(s, c);
        assert(final(s)@ =~= old(s)@ + escaped_in_string(c));
    } else {
        push_escaped(s, c);
    }
}

/// Appends the string `t` as written inside a string literal.
fn push_escaped_all(s: &mut String, t: &String)
    ensures
        final(s)@ == old(s)@ + escaped_all(t@),
{
    let v = chars_of(t.as_str());
    assert(v@.skip(0) =~= v@);
    let mut i: usize = 0;
    while i < v.len()
        invariant
            i <= v@.len(),
            v@ == t@,
            s@ + escaped_all(v@.skip(i as int)) == old(s)@ + escaped_all(t@),
        decreases v@.len() - i,
    {
        let ghost before = s@;
        push_escaped_in_string(s, v[i]);
        proof {
            let rest = v@.skip(i as int);
            assert(rest[0] == v@[i as int]);
            assert(rest.skip(1) =~= v@.skip(i + 1));
            assert(before + escaped_all(rest) =~= s@ + escaped_all(v@.skip(i + 1)));
        }
        i = i + 1;
    }
    assert(v@.skip(i as int) =~= Seq::<char>::empty());
    assert(s@ + Seq::<char>::empty() =~= s@);
}

impl Constant {
    /// Appends the canonical source text of this constant.
    pub fn write_text(&self, s: &mut String)
        ensures
            final(s)@ == old(s)@ + const_text(self@),
    {
        match self {
            Constant::Int(i) => {
                if *i < 0 {
                    push_char(s, '-');
                    push_nat_text(s, (0 - (*i as i64)) as u64);
                } else {
                    push_nat_text(s, *i as u64);
                }
                assert(s@ =~= old(s)@ + const_text(self@));
            },
            Constant::Float(f) => {
                if f.negative {
                    push_char(s, '-');
                }
                s.append(f.whole.as_str());
                push_char(s, '.');
                s.append(f.frac.as_str());
                assert(s@ =~= old(s)@ + const_text(self@));
            },
            Constant::Boolean(b) => {
                let kw = if *b {
                    vec!['I', 'G', 'A', 'Z']
                } else {
                    vec!['H', 'A', 'M', 'I', 'S']
                };
                assert(kw@ =~= const_text(self@));
                push_all(s, &kw);
            },
            Constant::Char(c) => {
                push_char(s, '\'');
                push_escaped(s, *c);
                push_char(s, '\'');
                assert(s@ =~= old(s)@ + const_text(self@));
            },
            Constant::String(t) => {
                push_char(s, '"');
                push_escaped_all(s, t);
                push_char(s, '"');
                assert(s@ =~= old(s)@ + const_text(self@));
            },
        }
    }

    /// The canonical source text of this constant.
    pub fn to_text(&self) -> (r: String)
        ensures
            r@ == const_text(self@),
    {
        let mut s = String::new();
        self.write_text(&mut s);
        assert(s@ =~= const_text(self@));
        s
    }
}

} // verus!
