//! Building expression trees from raw syntax nodes.
use vstd::prelude::*;

use crate::constant::{const_result, lex_literal, literal, ConstV, Constant};
use crate::error::DError;
use crate::expr::{expr_result, Binary, Expr, ExprV, UnaryExpr, VarName, Wrapper};
use crate::lexer::{
    char_literal, chars_of, float_literal, int_literal, lex_char, lex_float, lex_int, lex_string,
    string_literal,
};
use crate::ops::{binary_of_keyword, unary_of_keyword, BinaryCode, UnaryOpCode};
use crate::resolve::{pairs_view, resolve, resolve_chain};

verus! {

/// The grammar's rule tags that the deserializer dispatches on.
#[derive(Debug, Clone, Copy, PartialEq, Eq, Hash, Structural)]
pub enum Rule {
    /// Transparent: an expression.
    Expr,
    /// Transparent: an operand of a chain.
    Term,
    /// A constant: transparent over one child, or a literal's whole text.
    Constant,
    /// Transparent: a number.
    Number,
    /// Transparent: a boolean.
    Boolean,
    /// The true keyword.
    BooleanTrue,
    /// The false keyword.
    BooleanFalse,
    /// An integer literal.
    Int,
    /// A float literal.
    Float,
    /// A character literal, quotes included.
    Character,
    /// A string literal, quotes included.
    Str,
    /// A variable name.
    VarName,
    /// A prefix operator and its operand.
    Unary,
    /// The keyword of a prefix operator.
    UnaryOp,
    /// Whitespace.
    Ws,
    /// `( e )`
    Parentheses,
    /// `| e |`
    Abs,
    /// `e [ e ]`
    Index,
    /// `e [ e : e ]`
    Slice,
    /// A chain of operands and infix operators.
    Binary,
    /// The keyword of an infix operator.
    BinaryOp,
    /// A block of statements.
    Stmts,
    /// Transparent: one statement.
    Stmt,
    /// `READ: name`
    Read,
    /// `PRINT: expr`
    Print,
    /// `name := expr`
    Assign,
    /// `IF expr THEN block END_IF`
    IfStmt,
    /// `WHILE expr block DONE`
    WhileStmt,
    /// Any tag the expression layer does not know.
    Other,
}

/// A raw syntax node: a rule tag, the source text it covers, and its
/// children in order.
#[derive(Debug)]
pub struct RawNode {
    pub rule: Rule,
    pub text: String,
    pub children: Vec<RawNode>,
}

impl RawNode {
    /// A node without children.
    pub fn leaf(rule: Rule, text: &str) -> (r: RawNode)
        ensures
            r.rule == rule,
            r.text@ == text@,
            r.children@.len() == 0,
    {
        RawNode { rule, text: String::from_str(text), children: Vec::new() }
    }

    /// A node with children.
    pub fn node(rule: Rule, text: &str, children: Vec<RawNode>) -> (r: RawNode)
        ensures
            r.rule == rule,
            r.text@ == text@,
            r.children == children,
    {
        RawNode { rule, text: String::from_str(text), children }
    }
}

pub open spec fn is_alpha(c: char) -> bool {
    ('a' <= c && c <= 'z') || ('A' <= c && c <= 'Z')
}

pub open spec fn is_word_char(c: char) -> bool {
    is_alpha(c) || ('0' <= c && c <= '9') || c == '_'
}

/// A variable name: a letter or `_`, then letters, digits or `_`.
pub open spec fn is_identifier(s: Seq<char>) -> bool {
    &&& s.len() > 0
    &&& (is_alpha(s[0]) || s[0] == '_')
    &&& forall|i: int| 1 <= i < s.len() ==> is_word_char(#[trigger] s[i])
}

pub open spec fn map_const<T>(r: Result<T, DError>, f: spec_fn(T) -> ConstV) -> Result<ConstV, DError> {
    match r {
        Ok(x) => Ok(f(x)),
        Err(e) => Err(e),
    }
}

/// The constant that a literal node stands for.
pub open spec fn const_node(n: RawNode) -> Result<ConstV, DError>
    decreases n,
{
    let ch = n.children@;
    match n.rule {
        Rule::BooleanTrue => Ok(ConstV::Boolean(true)),
        Rule::BooleanFalse => Ok(ConstV::Boolean(false)),
        Rule::Int => map_const(int_literal(n.text@), |i: i32| ConstV::Int(i)),
        Rule::Float => map_const(float_literal(n.text@), |f| ConstV::Float(f)),
        Rule::Character => map_const(char_literal(n.text@), |c: char| ConstV::Char(c)),
        Rule::Str => map_const(string_literal(n.text@), |s: Seq<char>| ConstV::Str(s)),
        Rule::Constant | Rule::Number | Rule::Boolean => {
            if ch.len() == 1 {
                const_node(ch[0])
            } else if ch.len() == 0 && n.rule == Rule::Constant {
                literal(n.text@)
            } else {
                Err(DError::UnknownExpression)
            }
        },
        _ => Err(DError::UnknownRule),
    }
}

pub open spec fn is_const_rule(r: Rule) -> bool {
    match r {
        Rule::Constant | Rule::Number | Rule::Boolean | Rule::BooleanTrue | Rule::BooleanFalse
        | Rule::Int | Rule::Float | Rule::Character | Rule::Str => true,
        _ => false,
    }
}

/// The prefix operator that an operator node names.
pub open spec fn unary_op_node(o: RawNode) -> Result<UnaryOpCode, DError> {
    if o.rule == Rule::UnaryOp {
        match unary_of_keyword(o.text@) {
            Some(op) => Ok(op),
            None => Err(DError::UnknownRule),
        }
    } else {
        Err(DError::UnknownRule)
    }
}

/// The infix operator that an operator node names.
pub open spec fn binary_op_node(o: RawNode) -> Result<BinaryCode, DError> {
    if o.rule == Rule::BinaryOp {
        match binary_of_keyword(o.text@) {
            Some(op) => Ok(op),
            None => Err(DError::UnknownRule),
        }
    } else {
        Err(DError::UnknownRule)
    }
}

/// Only whitespace from index `k` on.
pub open spec fn only_ws_from(ch: Seq<RawNode>, k: int) -> bool {
    forall|j: int| k <= j < ch.len() ==> (#[trigger] ch[j]).rule == Rule::Ws
}

/// Where the operand of a unary node stands: after the operator and one
/// optional whitespace node.
pub open spec fn operand_index(ch: Seq<RawNode>) -> int {
    if ch.len() > 1 && ch[1].rule == Rule::Ws {
        2
    } else {
        1
    }
}

pub open spec fn boxed1(r: Result<ExprV, DError>, f: spec_fn(Box<ExprV>) -> ExprV) -> Result<ExprV, DError> {
    match r {
        Ok(x) => Ok(f(Box::new(x))),
        Err(e) => Err(e),
    }
}

/// The expression that a raw node stands for.
pub open spec fn deser(n: RawNode) -> Result<ExprV, DError>
    decreases n, 2nat, 0nat,
{
    let ch = n.children@;
    if is_const_rule(n.rule) {
        match const_node(n) {
            Ok(c) => Ok(ExprV::Const(c)),
            Err(e) => Err(e),
        }
    } else {
        match n.rule {
            Rule::Expr | Rule::Term => if ch.len() == 1 {
                deser(ch[0])
            } else {
                Err(DError::UnknownExpression)
            },
            Rule::VarName => if is_identifier(n.text@) {
                Ok(ExprV::Var(n.text@))
            } else {
                Err(DError::UnknownExpression)
            },
            Rule::Unary => if ch.len() == 0 {
                Err(DError::UnknownExpression)
            } else {
                match unary_op_node(ch[0]) {
                    Err(e) => Err(e),
                    Ok(op) => {
                        let i = operand_index(ch);
                        if i >= ch.len() {
                            Err(DError::UnknownExpression)
                        } else {
                            match deser(ch[i]) {
                                Err(e) => Err(e),
                                Ok(x) => if only_ws_from(ch, i + 1) {
                                    Ok(ExprV::Unary(op, Box::new(x)))
                                } else {
                                    Err(DError::UnknownExpression)
                                },
                            }
                        }
                    },
                }
            },
            Rule::Parentheses => if ch.len() == 0 {
                Err(DError::UnknownExpression)
            } else {
                boxed1(deser(ch[0]), |x| ExprV::Paren(x))
            },
            Rule::Abs => if ch.len() == 0 {
                Err(DError::UnknownExpression)
            } else {
                boxed1(deser(ch[0]), |x| ExprV::Abs(x))
            },
            Rule::Index => if ch.len() < 2 {
                Err(DError::UnknownExpression)
            } else {
                match deser(ch[0]) {
                    Err(e) => Err(e),
                    Ok(b) => match deser(ch[1]) {
                        Err(e) => Err(e),
                        Ok(i) => Ok(ExprV::Index(Box::new(b), Box::new(i))),
                    },
                }
            },
            Rule::Slice => if ch.len() < 3 {
                Err(DError::UnknownExpression)
            } else {
                match deser(ch[0]) {
                    Err(e) => Err(e),
                    Ok(b) => match deser(ch[1]) {
                        Err(e) => Err(e),
                        Ok(s) => match deser(ch[2]) {
                            Err(e) => Err(e),
                            Ok(t) => Ok(ExprV::Slice(Box::new(b), Box::new(s), Box::new(t))),
                        },
                    },
                }
            },
            Rule::Binary => if ch.len() == 0 {
                Err(DError::UnknownExpression)
            } else {
                match deser(ch[0]) {
                    Err(e) => Err(e),
                    Ok(h) => match chain(n, 1) {
                        Err(e) => Err(e),
                        Ok(t) => Ok(resolve(h, t)),
                    },
                }
            },
            _ => Err(DError::UnknownRule),
        }
    }
}

/// The operator/operand pairs of a chain node from child `i` on.
pub open spec fn chain(n: RawNode, i: int) -> Result<Seq<(BinaryCode, ExprV)>, DError>
    decreases n, 1nat, (n.children@.len() - i) as nat,
{
    let ch = n.children@;
    if i < 0 || i >= ch.len() {
        Ok(Seq::empty())
    } else if i + 1 >= ch.len() {
        Err(DError::UnknownExpression)
    } else {
        match binary_op_node(ch[i]) {
            Err(e) => Err(e),
            Ok(op) => match deser(ch[i + 1]) {
                Err(e) => Err(e),
                Ok(x) => match chain(n, i + 2) {
                    Err(e) => Err(e),
                    Ok(r) => Ok(seq![(op, x)] + r),
                },
            },
        }
    }
}

/// Whether `v` is a variable name.
fn identifier(v: &Vec<char>) -> (r: bool)
    ensures
        r == is_identifier(v@),
{
    if v.len() == 0 {
        return false;
    }
    let c = v[0];
    if !(('a' <= c && c <= 'z') || ('A' <= c && c <= 'Z') || c == '_') {
        return false;
    }
    let mut i: usize = 1;
    while i < v.len()
        invariant
            1 <= i <= v@.len(),
            forall|j: int| 1 <= j < i ==> is_word_char(#[trigger] v@[j]),
        decreases v@.len() - i,
    {
        let c = v[i];
        if !(('a' <= c && c <= 'z') || ('A' <= c && c <= 'Z') || ('0' <= c && c <= '9') || c
            == '_') {
            return false;
        }
        i = i + 1;
    }
    true
}

/// The characters of a node's text, with their relation to its model.
fn text_chars(n: &RawNode) -> (r: Vec<char>)
    ensures
        r@ == n.text@,
        r@.subrange(0, r@.len() as int) == n.text@,
{
    let v = chars_of(n.text.as_str());
    assert(v@.subrange(0, v@.len() as int) =~= v@);
    v
}

impl Constant {
    /// The constant that a literal node stands for.
    pub fn deserialize(node: &RawNode) -> (r: Result<Constant, DError>)
        ensures
            const_result(r) == const_node(*node),
        decreases node,
    {
        match node.rule {
            Rule::BooleanTrue => Ok(Constant::Boolean(true)),
            Rule::BooleanFalse => Ok(Constant::Boolean(false)),
            Rule::Int => {
                let v = text_chars(node);
                match lex_int(&v, 0, v.len()) {
                    Ok(i) => Ok(Constant::Int(i)),
                    Err(e) => Err(e),
                }
            },
            Rule::Float => {
                let v = text_chars(node);
                match lex_float(&v, 0, v.len()) {
                    Ok(f) => Ok(Constant::Float(f)),
                    Err(e) => Err(e),
                }
            },
            Rule::Character => {
                let v = text_chars(node);
                match lex_char(&v, 0, v.len()) {
                    Ok(c) => Ok(Constant::Char(c)),
                    Err(e) => Err(e),
                }
            },
            Rule::Str => {
                let v = text_chars(node);
                match lex_string(&v, 0, v.len()) {
                    Ok(t) => Ok(Constant::String(t)),
                    Err(e) => Err(e),
                }
            },
            Rule::Constant | Rule::Number | Rule::Boolean => {
                if node.children.len() == 1 {
                    proof {
                        assert(decreases_to!(*node => node.children));
                    }
                    Constant::deserialize(&node.children[0])
                } else if node.children.len() == 0 && node.rule == Rule::Constant {
                    let v = text_chars(node);
                    lex_literal(&v, 0, v.len())
                } else {
                    Err(DError::UnknownExpression)
                }
            },
            _ => Err(DError::UnknownRule),
        }
    }
}

impl UnaryOpCode {
    /// The prefix operator that an operator node names.
    pub fn deserialize(node: &RawNode) -> (r: Result<UnaryOpCode, DError>)
        ensures
            r == unary_op_node(*node),
    {
        if node.rule != Rule::UnaryOp {
            return Err(DError::UnknownRule);
        }
        let v = text_chars(node);
        match UnaryOpCode::from_keyword(&v, 0, v.len()) {
            Some(op) => Ok(op),
            None => Err(DError::UnknownRule),
        }
    }
}

impl BinaryCode {
    /// The infix operator that an operator node names.
    pub fn deserialize(node: &RawNode) -> (r: Result<BinaryCode, DError>)
        ensures
            r == binary_op_node(*node),
    {
        if node.rule != Rule::BinaryOp {
            return Err(DError::UnknownRule);
        }
        let v = text_chars(node);
        match BinaryCode::from_keyword(&v, 0, v.len()) {
            Some(op) => Ok(op),
            None => Err(DError::UnknownRule),
        }
    }
}

impl Expr {
    /// The expression that a raw node stands for.
    pub fn deserialize(node: &RawNode) -> (r: Result<Expr, DError>)
        ensures
            expr_result(r) == deser(*node),
        decreases node, 2nat,
    {
        let rule = node.rule;
        if is_const(rule) {
            return match Constant::deserialize(node) {
                Ok(c) => Ok(Expr::Const(c)),
                Err(e) => Err(e),
            };
        }
        proof {
            assert(decreases_to!(*node => node.children));
        }
        match rule {
            Rule::Expr | Rule::Term => {
                if node.children.len() == 1 {
                    Expr::deserialize(&node.children[0])
                } else {
                    Err(DError::UnknownExpression)
                }
            },
            Rule::VarName => {
                let v = text_chars(node);
                if identifier(&v) {
                    Ok(Expr::Variable(VarName(node.text.clone())))
                } else {
                    Err(DError::UnknownExpression)
                }
            },
            Rule::Unary => match UnaryExpr::deserialize(node) {
                Ok(u) => Ok(Expr::Unary(u)),
                Err(e) => Err(e),
            },
            Rule::Parentheses | Rule::Abs | Rule::Index | Rule::Slice => match Wrapper::deserialize(
                node,
            ) {
                Ok(w) => Ok(Expr::Wrapped(w)),
                Err(e) => Err(e),
            },
            Rule::Binary => deserialize_chain(node),
            _ => Err(DError::UnknownRule),
        }
    }
}

/// Whether a tag stands for a literal.
fn is_const(r: Rule) -> (b: bool)
    ensures
        b == is_const_rule(r),
{
    match r {
        Rule::Constant | Rule::Number | Rule::Boolean | Rule::BooleanTrue | Rule::BooleanFalse
        | Rule::Int | Rule::Float | Rule::Character | Rule::Str => true,
        _ => false,
    }
}

impl UnaryExpr {
    /// A prefix operator node: the operator, optional whitespace, the
    /// operand, then nothing but whitespace.
    pub fn deserialize(node: &RawNode) -> (r: Result<UnaryExpr, DError>)
        ensures
            node.rule == Rule::Unary ==> expr_result(
                match r {
                    Ok(u) => Ok(Expr::Unary(u)),
                    Err(e) => Err(e),
                },
            ) == deser(*node),
            node.rule != Rule::Unary ==> r == Err::<UnaryExpr, DError>(DError::UnknownRule),
        decreases node, 1nat,
    {
        if node.rule != Rule::Unary {
            return Err(DError::UnknownRule);
        }
        let ch = &node.children;
        if ch.len() == 0 {
            return Err(DError::UnknownExpression);
        }
        let op = match UnaryOpCode::deserialize(&ch[0]) {
            Ok(op) => op,
            Err(e) => {
                return Err(e);
            },
        };
        let i: usize = if ch.len() > 1 && ch[1].rule == Rule::Ws {
            2
        } else {
            1
        };
        if i >= ch.len() {
            return Err(DError::UnknownExpression);
        }
        proof {
            assert(decreases_to!(*node => node.children));
        }
        let x = match Expr::deserialize(&ch[i]) {
            Ok(x) => x,
            Err(e) => {
                return Err(e);
            },
        };
        let mut j: usize = i + 1;
        while j < ch.len()
            invariant
                i < j <= ch@.len(),
                node.rule == Rule::Unary,
                *ch == node.children,
                ch@.len() > 0,
                i == operand_index(ch@),
                unary_op_node(ch@[0]) == Ok::<UnaryOpCode, DError>(op),
                deser(ch@[i as int]) == Ok::<ExprV, DError>(x@),
                forall|k: int| i < k < j ==> (#[trigger] ch@[k]).rule == Rule::Ws,
            decreases ch@.len() - j,
        {
            if ch[j].rule != Rule::Ws {
                return Err(DError::UnknownExpression);
            }
            j = j + 1;
        }
        Ok(UnaryExpr { op, operand: Box::new(x) })
    }
}

impl Wrapper {
    /// An envelope node: parentheses, absolute value, index or slice.
    pub fn deserialize(node: &RawNode) -> (r: Result<Wrapper, DError>)
        ensures
            (node.rule == Rule::Parentheses || node.rule == Rule::Abs || node.rule == Rule::Index
                || node.rule == Rule::Slice) ==> expr_result(
                match r {
                    Ok(w) => Ok(Expr::Wrapped(w)),
                    Err(e) => Err(e),
                },
            ) == deser(*node),
            !(node.rule == Rule::Parentheses || node.rule == Rule::Abs || node.rule == Rule::Index
                || node.rule == Rule::Slice) ==> r == Err::<Wrapper, DError>(DError::UnknownRule),
        decreases node, 1nat,
    {
        let ch = &node.children;
        proof {
            assert(decreases_to!(*node => node.children));
        }
        match node.rule {
            Rule::Parentheses => {
                if ch.len() == 0 {
                    return Err(DError::UnknownExpression);
                }
                match Expr::deserialize(&ch[0]) {
                    Ok(x) => Ok(Wrapper::Parentheses(Box::new(x))),
                    Err(e) => Err(e),
                }
            },
            Rule::Abs => {
                if ch.len() == 0 {
                    return Err(DError::UnknownExpression);
                }
                match Expr::deserialize(&ch[0]) {
                    Ok(x) => Ok(Wrapper::Abs(Box::new(x))),
                    Err(e) => Err(e),
                }
            },
            Rule::Index => {
                if ch.len() < 2 {
                    return Err(DError::UnknownExpression);
                }
                let b = match Expr::deserialize(&ch[0]) {
                    Ok(x) => x,
                    Err(e) => {
                        return Err(e);
                    },
                };
                match Expr::deserialize(&ch[1]) {
                    Ok(i) => Ok(Wrapper::Index(Box::new(b), Box::new(i))),
                    Err(e) => Err(e),
                }
            },
            Rule::Slice => {
                if ch.len() < 3 {
                    return Err(DError::UnknownExpression);
                }
                let b = match Expr::deserialize(&ch[0]) {
                    Ok(x) => x,
                    Err(e) => {
                        return Err(e);
                    },
                };
                let s = match Expr::deserialize(&ch[1]) {
                    Ok(x) => x,
                    Err(e) => {
                        return Err(e);
                    },
                };
                match Expr::deserialize(&ch[2]) {
                    Ok(t) => Ok(Wrapper::Slice(Box::new(b), Box::new(s), Box::new(t))),
                    Err(e) => Err(e),
                }
            },
            _ => Err(DError::UnknownRule),
        }
    }
}

/// A chain node: deserializes the operands and operators in order, then
/// folds them by precedence.
fn deserialize_chain(node: &RawNode) -> (r: Result<Expr, DError>)
    requires
        node.rule == Rule::Binary,
    ensures
        expr_result(r) == deser(*node),
    decreases node, 1nat,
{
    let ch = &node.children;
    if ch.len() == 0 {
        return Err(DError::UnknownExpression);
    }
    proof {
        assert(decreases_to!(*node => node.children));
    }
    let head = match Expr::deserialize(&ch[0]) {
        Ok(x) => x,
        Err(e) => {
            return Err(e);
        },
    };
    let mut tail: Vec<(BinaryCode, Expr)> = Vec::new();
    let mut i: usize = 1;
    while i < ch.len()
        invariant
            1 <= i,
            node.rule == Rule::Binary,
            *ch == node.children,
            ch@.len() > 0,
            deser(ch@[0]) == Ok::<ExprV, DError>(head@),
            decreases_to!(*node => node.children),
            chain(*node, 1) == match chain(*node, i as int) {
                Ok(r) => Ok(pairs_view(tail@) + r),
                Err(e) => Err::<Seq<(BinaryCode, ExprV)>, DError>(e),
            },
        decreases ch@.len() - i,
    {
        if i + 1 >= ch.len() {
            return Err(DError::UnknownExpression);
        }
        let op = match BinaryCode::deserialize(&ch[i]) {
            Ok(op) => op,
            Err(e) => {
                return Err(e);
            },
        };
        let x = match Expr::deserialize(&ch[i + 1]) {
            Ok(x) => x,
            Err(e) => {
                return Err(e);
            },
        };
        let ghost before = tail@;
        tail.push((op, x));
        proof {
            assert(pairs_view(tail@) =~= pairs_view(before).push((op, x@)));
            match chain(*node, i + 2) {
                Ok(r) => {
                    assert(pairs_view(before) + (seq![(op, x@)] + r) =~= pairs_view(tail@) + r);
                },
                Err(_) => {},
            }
        }
        i = i + 2;
    }
    proof {
        assert(pairs_view(tail@) + Seq::<(BinaryCode, ExprV)>::empty() =~= pairs_view(tail@));
    }
    Ok(resolve_chain(head, tail))
}

} // verus!
