//! The expression tree and its model.
use vstd::prelude::*;

use crate::constant::{ConstV, Constant};
use crate::ops::{BinaryCode, UnaryOpCode};

verus! {

/// A variable's name, as written in source text.
#[derive(Debug, Clone, PartialEq)]
pub struct VarName(pub String);

impl View for VarName {
    type V = Seq<char>;

    open spec fn view(&self) -> Seq<char> {
        self.0@
    }
}

/// An expression tree; each node owns its children.
#[derive(Debug, PartialEq)]
pub enum Expr {
    Const(Constant),
    Variable(VarName),
    Unary(UnaryExpr),
    Binary(Binary),
    Wrapped(Wrapper),
}

/// A prefix operator applied to its operand.
#[derive(Debug, PartialEq)]
pub struct UnaryExpr {
    pub op: UnaryOpCode,
    pub operand: Box<Expr>,
}

/// The prefix application, under the name the expression layer uses.
pub type Unary = UnaryExpr;

/// An infix operator applied to its two operands.
#[derive(Debug, PartialEq)]
pub struct Binary {
    pub op: BinaryCode,
    pub lhs: Box<Expr>,
    pub rhs: Box<Expr>,
}

/// A syntactic envelope around sub-expressions.
#[derive(Debug, PartialEq)]
pub enum Wrapper {
    /// `(inner)`
    Parentheses(Box<Expr>),
    /// `|inner|`
    Abs(Box<Expr>),
    /// `base[index]`
    Index(Box<Expr>, Box<Expr>),
    /// `base[start:end]`
    Slice(Box<Expr>, Box<Expr>, Box<Expr>),
}

/// The mathematical model of an expression tree.
pub enum ExprV {
    Const(ConstV),
    Var(Seq<char>),
    Unary(UnaryOpCode, Box<ExprV>),
    Binary(BinaryCode, Box<ExprV>, Box<ExprV>),
    Paren(Box<ExprV>),
    Abs(Box<ExprV>),
    Index(Box<ExprV>, Box<ExprV>),
    Slice(Box<ExprV>, Box<ExprV>, Box<ExprV>),
}

pub open spec fn expr_view(e: Expr) -> ExprV
    decreases e,
{
    match e {
        Expr::Const(c) => ExprV::Const(c@),
        Expr::Variable(n) => ExprV::Var(n@),
        Expr::Unary(u) => ExprV::Unary(u.op, Box::new(expr_view(*u.operand))),
        Expr::Binary(b) => ExprV::Binary(
            b.op,
            Box::new(expr_view(*b.lhs)),
            Box::new(expr_view(*b.rhs)),
        ),
        Expr::Wrapped(w) => match w {
            Wrapper::Parentheses(x) => ExprV::Paren(Box::new(expr_view(*x))),
            Wrapper::Abs(x) => ExprV::Abs(Box::new(expr_view(*x))),
            Wrapper::Index(b, i) => ExprV::Index(Box::new(expr_view(*b)), Box::new(expr_view(*i))),
            Wrapper::Slice(b, s, t) => ExprV::Slice(
                Box::new(expr_view(*b)),
                Box::new(expr_view(*s)),
                Box::new(expr_view(*t)),
            ),
        },
    }
}

impl View for Expr {
    type V = ExprV;

    open spec fn view(&self) -> ExprV {
        expr_view(*self)
    }
}

impl View for Wrapper {
    type V = ExprV;

    open spec fn view(&self) -> ExprV {
        expr_view(Expr::Wrapped(*self))
    }
}

impl View for UnaryExpr {
    type V = ExprV;

    open spec fn view(&self) -> ExprV {
        expr_view(Expr::Unary(*self))
    }
}

impl View for Binary {
    type V = ExprV;

    open spec fn view(&self) -> ExprV {
        expr_view(Expr::Binary(*self))
    }
}

pub open spec fn expr_result(r: Result<Expr, crate::error::DError>) -> Result<ExprV, crate::error::DError> {
    match r {
        Ok(e) => Ok(e@),
        Err(x) => Err(x),
    }
}

impl Expr {
    /// The expression in a box.
    pub fn boxed(self) -> (r: Box<Expr>)
        ensures
            *r == self,
    {
        Box::new(self)
    }

    /// The constant this expression is.
    pub fn unwrap_value(self) -> (r: Constant)
        requires
            self is Const,
        ensures
            Expr::Const(r) == self,
    {
        match self {
            Expr::Const(c) => c,
            _ => {
                proof {
                    assert(false);
                }
                Constant::Int(0)
            },
        }
    }

    /// The prefix application this expression is.
    pub fn unwrap_unary(self) -> (r: UnaryExpr)
        requires
            self is Unary,
        ensures
            Expr::Unary(r) == self,
    {
        match self {
            Expr::Unary(u) => u,
            _ => {
                proof {
                    assert(false);
                }
                UnaryExpr { op: UnaryOpCode::Plus, operand: Box::new(self) }
            },
        }
    }

    /// The infix application this expression is.
    pub fn unwrap_binary(self) -> (r: Binary)
        requires
            self is Binary,
        ensures
            Expr::Binary(r) == self,
    {
        match self {
            Expr::Binary(b) => b,
            _ => {
                proof {
                    assert(false);
                }
                Binary { op: BinaryCode::Add, lhs: Box::new(self), rhs: Box::new(Expr::Const(Constant::Int(0))) }
            },
        }
    }

    /// A prefix operator applied to `operand`.
    pub fn unary(op: UnaryOpCode, operand: Expr) -> (r: Expr)
        ensures
            r@ == ExprV::Unary(op, Box::new(operand@)),
    {
        Expr::Unary(UnaryExpr { op, operand: Box::new(operand) })
    }

    /// An infix operator applied to `lhs` and `rhs`.
    pub fn binary(op: BinaryCode, lhs: Expr, rhs: Expr) -> (r: Expr)
        ensures
            r@ == ExprV::Binary(op, Box::new(lhs@), Box::new(rhs@)),
    {
        Expr::Binary(Binary { op, lhs: Box::new(lhs), rhs: Box::new(rhs) })
    }
}

impl VarName {
    /// The variable as an expression leaf.
    pub fn to_expr(self) -> (r: Expr)
        ensures
            r@ == ExprV::Var(self@),
    {
        Expr::Variable(self)
    }
}

impl UnaryExpr {
    /// The operator.
    pub fn op_code(&self) -> (r: &UnaryOpCode)
        ensures
            *r == self.op,
    {
        &self.op
    }

    /// The operand.
    pub fn rhs(&self) -> (r: &Expr)
        ensures
            *r == *self.operand,
    {
        &self.operand
    }

    /// The application as an expression.
    pub fn to_expr(self) -> (r: Expr)
        ensures
            r@ == self@,
    {
        Expr::Unary(self)
    }
}

impl Binary {
    /// The operator.
    pub fn op_code(&self) -> (r: &BinaryCode)
        ensures
            *r == self.op,
    {
        &self.op
    }

    /// The left operand.
    pub fn lhs(&self) -> (r: &Expr)
        ensures
            *r == *self.lhs,
    {
        &self.lhs
    }

    /// The right operand.
    pub fn rhs(&self) -> (r: &Expr)
        ensures
            *r == *self.rhs,
    {
        &self.rhs
    }

    /// The application as an expression.
    pub fn to_expr(self) -> (r: Expr)
        ensures
            r@ == self@,
    {
        Expr::Binary(self)
    }
}

} // verus!
