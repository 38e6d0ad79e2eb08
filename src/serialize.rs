//! Rendering trees back to canonical source text.
use vstd::prelude::*;

use crate::constant::{const_text, Constant};
use crate::expr::{Binary, Expr, ExprV, UnaryExpr, Wrapper};
use crate::lexer::push_char;
use crate::ops::{binary_token, unary_token, BinaryCode, UnaryOpCode};

verus! {

/// A token stream: a piece of text, or a sequence of token streams.
#[derive(Debug, PartialEq)]
pub enum Printable {
    Str(String),
    Vec(Vec<Printable>),
}

/// The text of a token stream: its pieces concatenated in order.
pub open spec fn printable_text(p: Printable) -> Seq<char>
    decreases p, 0nat,
{
    match p {
        Printable::Str(s) => s@,
        Printable::Vec(v) => items_text(v, v@.len()),
    }
}

/// The text of the first `n` items of `v`.
pub open spec fn items_text(v: Vec<Printable>, n: nat) -> Seq<char>
    decreases v, n,
{
    if n == 0 || n > v@.len() {
        Seq::empty()
    } else {
        items_text(v, (n - 1) as nat) + printable_text(v@[n - 1])
    }
}

impl Printable {
    pub open spec fn text(&self) -> Seq<char> {
        printable_text(*self)
    }

    /// A single piece of text.
    pub fn from_string(s: String) -> (r: Printable)
        ensures
            r.text() == s@,
    {
        Printable::Str(s)
    }

    /// Appends the text of this stream.
    pub fn write_to(&self, s: &mut String)
        ensures
            final(s)@ == old(s)@ + self.text(),
        decreases self,
    {
        match self {
            Printable::Str(t) => {
                s.append(t.as_str());
            },
            Printable::Vec(v) => {
                let mut i: usize = 0;
                assert(old(s)@ + items_text(*v, 0) =~= old(s)@);
                while i < v.len()
                    invariant
                        i <= v@.len(),
                        *self == Printable::Vec(*v),
                        s@ == old(s)@ + items_text(*v, i as nat),
                    decreases v@.len() - i,
                {
                    proof {
                        assert(decreases_to!(*self => (*self)->Vec_0));
                        assert(decreases_to!(*v => v[i as int]));
                    }
                    v[i].write_to(s);
                    assert(s@ =~= old(s)@ + items_text(*v, (i + 1) as nat));
                    i = i + 1;
                }
            },
        }
    }

    /// The text of this stream as one string.
    pub fn concat(&self) -> (r: String)
        ensures
            r@ == self.text(),
    {
        let mut s = String::new();
        self.write_to(&mut s);
        assert(s@ =~= self.text());
        s
    }
}

/// The canonical source text of an expression.
pub open spec fn expr_text(e: ExprV) -> Seq<char>
    decreases e,
{
    match e {
        ExprV::Const(c) => const_text(c),
        ExprV::Var(n) => n,
        ExprV::Unary(op, x) => unary_token(op) + expr_text(*x),
        ExprV::Binary(op, l, r) => expr_text(*l) + binary_token(op) + expr_text(*r),
        ExprV::Paren(x) => seq!['('] + expr_text(*x) + seq![')'],
        ExprV::Abs(x) => seq!['|'] + expr_text(*x) + seq!['|'],
        ExprV::Index(b, i) => expr_text(*b) + seq!['['] + expr_text(*i) + seq![']'],
        ExprV::Slice(b, s, t) => expr_text(*b) + seq!['['] + expr_text(*s) + seq![':']
            + expr_text(*t) + seq![']'],
    }
}

/// What can be rendered to a token stream.
pub trait Serialize {
    /// The text that the rendering spells.
    spec fn source_text(&self) -> Seq<char>;

    fn serialize(&self) -> (r: Printable)
        ensures
            r.text() == self.source_text(),
    ;
}

/// A one-character token.
fn punct(c: char) -> (r: Printable)
    ensures
        r.text() == seq![c],
{
    let mut s = String::new();
    push_char(&mut s, c);
    Printable::Str(s)
}

/// The stream of the items of `v`, in order.
fn join(v: Vec<Printable>) -> (r: Printable)
    ensures
        r.text() == items_text(v, v@.len()),
{
    Printable::Vec(v)
}

proof fn lemma_items_step(v: Vec<Printable>, n: nat)
    requires
        1 <= n <= v@.len(),
    ensures
        items_text(v, n) == items_text(v, (n - 1) as nat) + printable_text(v@[n - 1]),
{
}

proof fn lemma_items_text2(v: Vec<Printable>)
    requires
        v@.len() == 2,
    ensures
        items_text(v, 2) == printable_text(v@[0]) + printable_text(v@[1]),
{
    lemma_items_step(v, 1);
    lemma_items_step(v, 2);
    assert(Seq::<char>::empty() + printable_text(v@[0]) =~= printable_text(v@[0]));
}

proof fn lemma_items_text3(v: Vec<Printable>)
    requires
        v@.len() == 3,
    ensures
        items_text(v, 3) == printable_text(v@[0]) + printable_text(v@[1]) + printable_text(v@[2]),
{
    lemma_items_step(v, 1);
    lemma_items_step(v, 2);
    lemma_items_step(v, 3);
    assert(Seq::<char>::empty() + printable_text(v@[0]) =~= printable_text(v@[0]));
}

proof fn lemma_items_text4(v: Vec<Printable>)
    requires
        v@.len() == 4,
    ensures
        items_text(v, 4) == printable_text(v@[0]) + printable_text(v@[1]) + printable_text(v@[2])
            + printable_text(v@[3]),
{
    lemma_items_step(v, 1);
    lemma_items_step(v, 2);
    lemma_items_step(v, 3);
    lemma_items_step(v, 4);
    assert(Seq::<char>::empty() + printable_text(v@[0]) =~= printable_text(v@[0]));
}

proof fn lemma_items_text6(v: Vec<Printable>)
    requires
        v@.len() == 6,
    ensures
        items_text(v, 6) == printable_text(v@[0]) + printable_text(v@[1]) + printable_text(v@[2])
            + printable_text(v@[3]) + printable_text(v@[4]) + printable_text(v@[5]),
{
    lemma_items_step(v, 1);
    lemma_items_step(v, 2);
    lemma_items_step(v, 3);
    lemma_items_step(v, 4);
    lemma_items_step(v, 5);
    lemma_items_step(v, 6);
    assert(Seq::<char>::empty() + printable_text(v@[0]) =~= printable_text(v@[0]));
}

/// The token stream of an expression.
pub fn expr_printable(e: &Expr) -> (r: Printable)
    ensures
        r.text() == expr_text(e@),
    decreases e,
{
    match e {
        Expr::Const(c) => Printable::Str(c.to_text()),
        Expr::Variable(n) => Printable::Str(n.0.clone()),
        Expr::Unary(u) => {
            let v = vec![Printable::Str(u.op.token()), expr_printable(&u.operand)];
            proof {
                lemma_items_text2(v);
            }
            join(v)
        },
        Expr::Binary(b) => {
            let v = vec![
                expr_printable(&b.lhs),
                Printable::Str(b.op.token()),
                expr_printable(&b.rhs),
            ];
            proof {
                lemma_items_text3(v);
            }
            join(v)
        },
        Expr::Wrapped(w) => wrapper_printable(w),
    }
}

/// The token stream of an envelope.
pub fn wrapper_printable(w: &Wrapper) -> (r: Printable)
    ensures
        r.text() == expr_text(w@),
    decreases w,
{
    match w {
        Wrapper::Parentheses(x) => {
            let v = vec![punct('('), expr_printable(x), punct(')')];
            proof {
                lemma_items_text3(v);
            }
            join(v)
        },
        Wrapper::Abs(x) => {
            let v = vec![punct('|'), expr_printable(x), punct('|')];
            proof {
                lemma_items_text3(v);
            }
            join(v)
        },
        Wrapper::Index(x, y) => {
            let v = vec![expr_printable(x), punct('['), expr_printable(y), punct(']')];
            proof {
                lemma_items_text4(v);
            }
            join(v)
        },
        Wrapper::Slice(x, y, z) => {
            let v = vec![
                expr_printable(x),
                punct('['),
                expr_printable(y),
                punct(':'),
                expr_printable(z),
                punct(']'),
            ];
            proof {
                lemma_items_text6(v);
            }
            join(v)
        },
    }
}

impl Serialize for Expr {
    open spec fn source_text(&self) -> Seq<char> {
        expr_text(self@)
    }

    fn serialize(&self) -> (r: Printable) {
        expr_printable(self)
    }
}

impl Serialize for Wrapper {
    open spec fn source_text(&self) -> Seq<char> {
        expr_text(self@)
    }

    fn serialize(&self) -> (r: Printable) {
        wrapper_printable(self)
    }
}

impl Serialize for UnaryExpr {
    open spec fn source_text(&self) -> Seq<char> {
        expr_text(self@)
    }

    fn serialize(&self) -> (r: Printable) {
        let v = vec![Printable::Str(self.op.token()), expr_printable(&self.operand)];
        proof {
            lemma_items_text2(v);
        }
        join(v)
    }
}

impl Serialize for Binary {
    open spec fn source_text(&self) -> Seq<char> {
        expr_text(self@)
    }

    fn serialize(&self) -> (r: Printable) {
        let v = vec![
            expr_printable(&self.lhs),
            Printable::Str(self.op.token()),
            expr_printable(&self.rhs),
        ];
        proof {
            lemma_items_text3(v);
        }
        join(v)
    }
}

impl Serialize for Constant {
    open spec fn source_text(&self) -> Seq<char> {
        const_text(self@)
    }

    fn serialize(&self) -> (r: Printable) {
        Printable::Str(self.to_text())
    }
}

impl Serialize for UnaryOpCode {
    open spec fn source_text(&self) -> Seq<char> {
        unary_token(*self)
    }

    fn serialize(&self) -> (r: Printable) {
        Printable::Str(self.token())
    }
}

impl Serialize for BinaryCode {
    open spec fn source_text(&self) -> Seq<char> {
        binary_token(*self)
    }

    fn serialize(&self) -> (r: Printable) {
        Printable::Str(self.token())
    }
}

} // verus!
