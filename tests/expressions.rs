use planggy::lexer::FloatLit;
use planggy::resolve::resolve_chain;
use planggy::{
    BinaryCode, Constant, DError, Expr, RawNode, Rule, Serialize, UnaryExpr, UnaryOpCode, VarName,
    Wrapper,
};

fn lit(text: &str) -> RawNode {
    RawNode::leaf(Rule::Constant, text)
}

fn var(text: &str) -> RawNode {
    RawNode::leaf(Rule::VarName, text)
}

fn bop(text: &str) -> RawNode {
    RawNode::leaf(Rule::BinaryOp, text)
}

fn ws(text: &str) -> RawNode {
    RawNode::leaf(Rule::Ws, text)
}

fn chain(text: &str, children: Vec<RawNode>) -> RawNode {
    RawNode::node(Rule::Binary, text, children)
}

fn unary(text: &str, keyword: &str, gap: &str, operand: RawNode) -> RawNode {
    let mut children = vec![RawNode::leaf(Rule::UnaryOp, keyword)];
    if !gap.is_empty() {
        children.push(ws(gap));
    }
    children.push(operand);
    RawNode::node(Rule::Unary, text, children)
}

fn paren(text: &str, inner: RawNode) -> RawNode {
    RawNode::node(Rule::Parentheses, text, vec![inner])
}

fn num(i: i32) -> Expr {
    Expr::Const(Constant::Int(i))
}

fn boolean(b: bool) -> Expr {
    Expr::Const(Constant::Boolean(b))
}

fn float(whole: &str, frac: &str) -> Expr {
    Expr::Const(Constant::Float(FloatLit {
        negative: false,
        whole: whole.to_string(),
        frac: frac.to_string(),
    }))
}

fn bin(op: BinaryCode, l: Expr, r: Expr) -> Expr {
    Expr::binary(op, l, r)
}

fn un(op: UnaryOpCode, x: Expr) -> Expr {
    Expr::unary(op, x)
}

fn wrapped(w: Wrapper) -> Expr {
    Expr::Wrapped(w)
}

fn parse(n: &RawNode) -> Result<Expr, DError> {
    Expr::deserialize(n)
}

#[test]
fn not_true() {
    let n = unary("NEM IGAZ", "NEM", " ", lit("IGAZ"));
    assert_eq!(
        UnaryExpr::deserialize(&n),
        Ok(UnaryExpr { op: UnaryOpCode::Not, operand: Box::new(boolean(true)) })
    )
}

#[test]
fn unary_parentheses() {
    let n = unary("SIN(0.5)", "SIN", "", paren("(0.5)", lit("0.5")));
    assert!(UnaryExpr::deserialize(&n).is_ok());
}

#[test]
fn sin_cos_float() {
    let n = unary("SIN COS 0.5", "SIN", " ", unary("COS 0.5", "COS", " ", lit("0.5")));
    let inner = un(UnaryOpCode::Cos, float("0", "5"));
    assert_eq!(parse(&n), Ok(un(UnaryOpCode::Sin, inner)));
}

#[test]
fn unary_chaining() {
    let n = unary("SIN COS 1.0", "SIN", " ", unary("COS 1.0", "COS", " ", lit("1.0")));
    assert_eq!(
        parse(&n),
        Ok(un(UnaryOpCode::Sin, un(UnaryOpCode::Cos, float("1", "0"))))
    );
}

#[test]
fn add_multiple() {
    let n = chain(
        "2 + 3 + 4 + 5",
        vec![lit("2"), bop("+"), lit("3"), bop("+"), lit("4"), bop("+"), lit("5")],
    );
    let add23 = bin(BinaryCode::Add, num(2), num(3));
    let add234 = bin(BinaryCode::Add, add23, num(4));
    let add2345 = bin(BinaryCode::Add, add234, num(5));
    assert_eq!(parse(&n), Ok(add2345));
}

#[test]
fn mul_constants() {
    let n = chain("2 * 3", vec![lit("2"), bop("*"), lit("3")]);
    assert_eq!(parse(&n), Ok(bin(BinaryCode::Mul, num(2), num(3))));
}

#[test]
fn add_constants() {
    let n = chain("2 + 3", vec![lit("2"), bop("+"), lit("3")]);
    assert_eq!(parse(&n), Ok(bin(BinaryCode::Add, num(2), num(3))));
}

#[test]
fn mul_vs_add_right() {
    let n = chain("2 + 3 * 4", vec![lit("2"), bop("+"), lit("3"), bop("*"), lit("4")]);
    assert_eq!(
        parse(&n),
        Ok(bin(BinaryCode::Add, num(2), bin(BinaryCode::Mul, num(3), num(4))))
    );
}

#[test]
fn mul_vs_add_left() {
    let n = chain("2 * 3 + 4", vec![lit("2"), bop("*"), lit("3"), bop("+"), lit("4")]);
    assert_eq!(
        parse(&n),
        Ok(bin(BinaryCode::Add, bin(BinaryCode::Mul, num(2), num(3)), num(4)))
    );
}

#[test]
fn chained_same_tier() {
    let n = chain("2 ^ 3 @ 4", vec![lit("2"), bop("^"), lit("3"), bop("@"), lit("4")]);
    assert_eq!(
        parse(&n),
        Ok(bin(BinaryCode::Search, bin(BinaryCode::Pow, num(2), num(3)), num(4)))
    );
}

#[test]
fn all_tiers() {
    // Comparisons bind loosest, then AND/OR, then + -, then * / MOD DIV, then ^ @.
    let n = chain(
        "1 * 2 + 3 ^ 4 AND 5 = 6",
        vec![
            lit("1"),
            bop("*"),
            lit("2"),
            bop("+"),
            lit("3"),
            bop("^"),
            lit("4"),
            bop("AND"),
            lit("5"),
            bop("="),
            lit("6"),
        ],
    );
    let sum = bin(
        BinaryCode::Add,
        bin(BinaryCode::Mul, num(1), num(2)),
        bin(BinaryCode::Pow, num(3), num(4)),
    );
    let and = bin(BinaryCode::And, sum, num(5));
    assert_eq!(parse(&n), Ok(bin(BinaryCode::Eq, and, num(6))));
}

#[test]
fn sub_is_left_associative() {
    let n = chain("9 - 5 - 1", vec![lit("9"), bop("-"), lit("5"), bop("-"), lit("1")]);
    assert_eq!(
        parse(&n),
        Ok(bin(BinaryCode::Sub, bin(BinaryCode::Sub, num(9), num(5)), num(1)))
    );
}

#[test]
fn once() {
    let n = paren("(123)", lit("123"));
    assert_eq!(parse(&n), Ok(wrapped(Wrapper::Parentheses(Box::new(num(123))))));
}

#[test]
fn twice() {
    let n = paren("((456))", paren("(456)", lit("456")));
    let inner = wrapped(Wrapper::Parentheses(Box::new(num(456))));
    assert_eq!(parse(&n), Ok(wrapped(Wrapper::Parentheses(Box::new(inner)))));
}

#[test]
fn single() {
    let n = paren("(789)", lit("789"));
    assert_eq!(parse(&n), Ok(wrapped(Wrapper::Parentheses(Box::new(num(789))))));
}

#[test]
fn wrapper_chain_rule() {
    let n = paren("(('c'))", paren("('c')", lit("'c'")));
    let inner = wrapped(Wrapper::Parentheses(Box::new(Expr::Const(Constant::Char('c')))));
    assert_eq!(parse(&n), Ok(wrapped(Wrapper::Parentheses(Box::new(inner)))));
}

#[test]
fn mixed_chain_rule() {
    let n = paren(
        "(|\"foo\"|)",
        RawNode::node(Rule::Abs, "|\"foo\"|", vec![lit("\"foo\"")]),
    );
    let inner = wrapped(Wrapper::Abs(Box::new(Expr::Const(Constant::String("foo".to_string())))));
    assert_eq!(parse(&n), Ok(wrapped(Wrapper::Parentheses(Box::new(inner)))));
}

#[test]
fn const_item_at() {
    let n = RawNode::node(Rule::Index, "\"foo\"[0]", vec![lit("\"foo\""), lit("0")]);
    let s = Expr::Const(Constant::String("foo".to_string()));
    assert_eq!(parse(&n), Ok(wrapped(Wrapper::Index(Box::new(s), Box::new(num(0))))));
}

#[test]
fn const_slice() {
    let n = RawNode::node(
        Rule::Slice,
        "\"foo\"[0:2]",
        vec![lit("\"foo\""), lit("0"), lit("2")],
    );
    let s = Expr::Const(Constant::String("foo".to_string()));
    assert_eq!(
        parse(&n),
        Ok(wrapped(Wrapper::Slice(Box::new(s), Box::new(num(0)), Box::new(num(2)))))
    );
}

#[test]
fn normal_whitespace() {
    let n = unary("NEM IGAZ", "NEM", " ", lit("IGAZ"));
    assert_eq!(parse(&n), Ok(un(UnaryOpCode::Not, boolean(true))));
}

#[test]
fn chain_rule_support() {
    let n1 = unary("NEM IGAZ", "NEM", " ", lit("IGAZ"));
    let n2 = unary("NEM NEM IGAZ", "NEM", " ", n1);
    let n3 = unary("NEM NEM NEM IGAZ", "NEM", " ", n2);
    let n4 = unary("NEM NEM NEM NEM IGAZ", "NEM", " ", n3);
    assert!(parse(&n4).is_ok());
}

#[test]
fn operations_chain_rule() {
    let n = unary("- NEM IGAZ", "-", " ", unary("NEM IGAZ", "NEM", " ", lit("IGAZ")));
    assert_eq!(
        parse(&n),
        Ok(un(UnaryOpCode::Neg, un(UnaryOpCode::Not, boolean(true))))
    );
}

#[test]
fn double_whitespace() {
    let n = unary("NEM  IGAZ", "NEM", "  ", lit("IGAZ"));
    assert!(parse(&n).is_ok());
}

#[test]
fn parentheses() {
    let n = unary("NEM(IGAZ)", "NEM", "", paren("(IGAZ)", lit("IGAZ")));
    assert_eq!(
        parse(&n),
        Ok(un(UnaryOpCode::Not, wrapped(Wrapper::Parentheses(Box::new(boolean(true))))))
    );
}

#[test]
fn const_as_expression() {
    assert_eq!(parse(&lit("123")), Ok(num(123)));
}

#[test]
fn sign_int() {
    assert_eq!(
        parse(&unary("+1", "+", "", RawNode::leaf(Rule::Int, "1"))),
        Ok(un(UnaryOpCode::Plus, num(1)))
    );
    assert_eq!(
        parse(&unary("-1", "-", "", RawNode::leaf(Rule::Int, "1"))),
        Ok(un(UnaryOpCode::Neg, num(1)))
    );
}

#[test]
fn sign_ws_int() {
    assert_eq!(
        parse(&unary("+ 1", "+", " ", lit("1"))),
        Ok(un(UnaryOpCode::Plus, num(1)))
    );
    assert_eq!(
        parse(&unary("- 1", "-", " ", lit("1"))),
        Ok(un(UnaryOpCode::Neg, num(1)))
    );
}

#[test]
fn add_int_int() {
    let n = chain("1 + 1", vec![lit("1"), bop("+"), lit("1")]);
    assert_eq!(parse(&n), Ok(bin(BinaryCode::Add, num(1), num(1))));
}

#[test]
fn sub_int_int() {
    let n = chain("1 - 1", vec![lit("1"), bop("-"), lit("1")]);
    assert_eq!(parse(&n), Ok(bin(BinaryCode::Sub, num(1), num(1))));
}

#[test]
fn add_int_plus_int() {
    let n = chain("1 + -1", vec![lit("1"), bop("+"), unary("-1", "-", "", lit("1"))]);
    assert_eq!(
        parse(&n),
        Ok(bin(BinaryCode::Add, num(1), un(UnaryOpCode::Neg, num(1))))
    );
}

#[test]
fn mul_int_plus_int() {
    let n = chain("1 * -1", vec![lit("1"), bop("*"), unary("-1", "-", "", lit("1"))]);
    assert_eq!(
        parse(&n),
        Ok(bin(BinaryCode::Mul, num(1), un(UnaryOpCode::Neg, num(1))))
    );
}

#[test]
fn variables() {
    assert_eq!(
        parse(&var("many_123")),
        Ok(VarName("many_123".to_string()).to_expr())
    );
    assert_eq!(parse(&var("_")), Ok(VarName("_".to_string()).to_expr()));
    assert_eq!(parse(&var("0asd")), Err(DError::UnknownExpression));
}

#[test]
fn deserializer_errors() {
    assert_eq!(parse(&RawNode::leaf(Rule::Other, "x")), Err(DError::UnknownRule));
    let bad_op = unary("FOO 1", "FOO", " ", lit("1"));
    assert_eq!(parse(&bad_op), Err(DError::UnknownRule));
    let trailing = RawNode::node(
        Rule::Unary,
        "NEM IGAZ 1",
        vec![RawNode::leaf(Rule::UnaryOp, "NEM"), ws(" "), lit("IGAZ"), lit("1")],
    );
    assert_eq!(parse(&trailing), Err(DError::UnknownExpression));
    let dangling = chain("1 +", vec![lit("1"), bop("+")]);
    assert_eq!(parse(&dangling), Err(DError::UnknownExpression));
    let bad_bop = chain("1 ? 2", vec![lit("1"), bop("?"), lit("2")]);
    assert_eq!(parse(&bad_bop), Err(DError::UnknownRule));
    let bad_literal = chain("1 + 99999999999", vec![lit("1"), bop("+"), lit("99999999999")]);
    assert_eq!(parse(&bad_literal), Err(DError::ConstValueTooLarge));
    assert_eq!(
        parse(&paren("()", RawNode::leaf(Rule::Other, ""))),
        Err(DError::UnknownRule)
    );
    assert_eq!(
        UnaryExpr::deserialize(&lit("1")),
        Err(DError::UnknownRule)
    );
    assert_eq!(Wrapper::deserialize(&lit("1")), Err(DError::UnknownRule));
}

#[test]
fn transparent_nodes() {
    let n = RawNode::node(
        Rule::Expr,
        "(1)",
        vec![RawNode::node(Rule::Term, "(1)", vec![paren("(1)", lit("1"))])],
    );
    assert_eq!(parse(&n), Ok(wrapped(Wrapper::Parentheses(Box::new(num(1))))));
}

#[test]
fn resolver_direct() {
    let tail = vec![
        (BinaryCode::Add, num(2)),
        (BinaryCode::Mul, num(3)),
        (BinaryCode::Lt, num(4)),
        (BinaryCode::Or, boolean(true)),
    ];
    let expected = bin(
        BinaryCode::Lt,
        bin(BinaryCode::Add, num(1), bin(BinaryCode::Mul, num(2), num(3))),
        bin(BinaryCode::Or, num(4), boolean(true)),
    );
    assert_eq!(resolve_chain(num(1), tail), expected);
}

#[test]
fn resolver_single_element() {
    let e = bin(BinaryCode::Add, num(1), num(2));
    let once = resolve_chain(e, vec![]);
    assert_eq!(once, bin(BinaryCode::Add, num(1), num(2)));
    let twice = resolve_chain(once, vec![]);
    assert_eq!(twice, bin(BinaryCode::Add, num(1), num(2)));
}

#[test]
fn serialize_tokens() {
    let e = bin(
        BinaryCode::Mod,
        wrapped(Wrapper::Abs(Box::new(un(UnaryOpCode::Neg, num(7))))),
        un(UnaryOpCode::Sin, float("1", "5")),
    );
    assert_eq!(e.serialize().concat(), "|-7| MOD SIN 1.5");
    let s = wrapped(Wrapper::Slice(
        Box::new(Expr::Const(Constant::String("ab".to_string()))),
        Box::new(num(0)),
        Box::new(num(1)),
    ));
    assert_eq!(s.serialize().concat(), "\"ab\"[0:1]");
    let i = wrapped(Wrapper::Index(Box::new(VarName("v".to_string()).to_expr()), Box::new(num(2))));
    assert_eq!(i.serialize().concat(), "v[2]");
    assert_eq!(UnaryOpCode::Not.serialize().concat(), "NEM ");
    assert_eq!(BinaryCode::Ne.serialize().concat(), "/=");
    assert_eq!(Constant::Boolean(true).serialize().concat(), "IGAZ");
}

// Printing a tree and reading back the syntax tree of the printed text
// gives the same tree.
#[test]
fn round_trip() {
    let e = bin(
        BinaryCode::Eq,
        bin(
            BinaryCode::Add,
            bin(BinaryCode::Mul, num(2), num(3)),
            un(UnaryOpCode::Sin, VarName("x".to_string()).to_expr()),
        ),
        wrapped(Wrapper::Parentheses(Box::new(bin(BinaryCode::Sub, num(1), Expr::Const(Constant::Char('\n')))))),
    );
    let text = e.serialize().concat();
    assert_eq!(text, "2*3+SIN x=(1-'\\n')");
    let n = chain(
        &text,
        vec![
            lit("2"),
            bop("*"),
            lit("3"),
            bop("+"),
            unary("SIN x", "SIN", " ", var("x")),
            bop("="),
            paren(
                "(1-'\\n')",
                chain("1-'\\n'", vec![lit("1"), bop("-"), lit("'\\n'")]),
            ),
        ],
    );
    assert_eq!(parse(&n), Ok(e));
}

#[test]
fn unwrap_accessors() {
    let n = chain("1 + 2", vec![lit("1"), bop("+"), lit("2")]);
    let b = parse(&n).unwrap().unwrap_binary();
    assert_eq!(b.op_code(), &BinaryCode::Add);
    assert_eq!(b.lhs(), &num(1));
    assert_eq!(b.rhs(), &num(2));
    let u = un(UnaryOpCode::Neg, num(3)).unwrap_unary();
    assert_eq!(u.op_code(), &UnaryOpCode::Neg);
    assert_eq!(u.rhs(), &num(3));
    assert_eq!(u.to_expr(), un(UnaryOpCode::Neg, num(3)));
}

#[test]
fn unwrap_value_accessor() {
    assert_eq!(parse(&lit("42")).unwrap().unwrap_value(), Constant::Int(42));
}
