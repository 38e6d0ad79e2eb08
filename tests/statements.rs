use planggy::stmt::{try_into_stmt, try_into_stmts};
use planggy::{
    ConstType, Constant, DError, Expr, FromValueError, RawExpr, RawNode, Rule, Stmt, VarName,
    VarType, Variable, VariableWithType,
};

fn leaf(rule: Rule, text: &str) -> RawNode {
    RawNode::leaf(rule, text)
}

fn assign(name: &str, expr: &str) -> RawNode {
    RawNode::node(
        Rule::Stmt,
        "",
        vec![RawNode::node(
            Rule::Assign,
            "",
            vec![leaf(Rule::VarName, name), leaf(Rule::Expr, expr)],
        )],
    )
}

fn name(s: &str) -> VarName {
    VarName(s.to_string())
}

#[test]
fn test_if() {
    let inner = RawNode::node(Rule::Stmts, "", vec![assign("b", "2")]);
    let if_stmt = RawNode::node(
        Rule::Stmt,
        "",
        vec![RawNode::node(
            Rule::IfStmt,
            "",
            vec![leaf(Rule::Expr, " 1 = 1 "), inner],
        )],
    );
    let block = RawNode::node(Rule::Stmts, "", vec![assign("a", "1"), if_stmt]);
    assert_eq!(
        try_into_stmts(&block),
        Ok(vec![
            Stmt::Assign(name("a"), RawExpr::new("1")),
            Stmt::If(RawExpr::new("1 = 1"), vec![Stmt::Assign(name("b"), RawExpr::new("2"))])
        ])
    );
}

#[test]
fn test_while() {
    let print = RawNode::node(
        Rule::Stmt,
        "",
        vec![RawNode::node(Rule::Print, "", vec![leaf(Rule::Expr, "a+1\n")])],
    );
    let if_stmt = RawNode::node(
        Rule::IfStmt,
        "",
        vec![leaf(Rule::Expr, "1"), RawNode::node(Rule::Stmts, "", vec![print])],
    );
    let body = RawNode::node(Rule::Stmts, "", vec![assign("b", "2"), if_stmt]);
    let while_stmt = RawNode::node(Rule::WhileStmt, "", vec![leaf(Rule::Expr, "1 = 1"), body]);
    let block = RawNode::node(Rule::Stmts, "", vec![assign("a", "1"), while_stmt]);
    assert_eq!(
        try_into_stmts(&block),
        Ok(vec![
            Stmt::Assign(name("a"), RawExpr::new("1")),
            Stmt::While(
                RawExpr::new("1 = 1"),
                vec![
                    Stmt::Assign(name("b"), RawExpr::new("2")),
                    Stmt::If(RawExpr::new("1"), vec![Stmt::Print(RawExpr::new("a+1"))])
                ]
            )
        ])
    );
}

#[test]
fn read() {
    let n = RawNode::node(Rule::Read, "READ: a", vec![leaf(Rule::VarName, " a ")]);
    assert_eq!(try_into_stmt(&n), Ok(Stmt::Read(name("a"))));
}

#[test]
fn statement_errors() {
    assert_eq!(try_into_stmt(&leaf(Rule::Other, "")), Err(DError::UnknownRule));
    assert_eq!(try_into_stmt(&leaf(Rule::Print, "PRINT:")), Err(DError::UnknownExpression));
    assert_eq!(try_into_stmts(&leaf(Rule::Stmt, "")), Err(DError::UnknownRule));
    let bad = RawNode::node(Rule::Stmts, "", vec![assign("a", "1"), leaf(Rule::Other, "")]);
    assert_eq!(try_into_stmts(&bad), Err(DError::UnknownRule));
}

#[test]
fn declared_types() {
    let v = VariableWithType::new(name("a"), ConstType::Int);
    assert_eq!(v.name(), &name("a"));
    assert_eq!(v.its_type(), ConstType::Int);
    let w = Variable::new(name("c"), VarType::Char);
    assert_eq!(w.name(), &name("c"));
    assert_eq!(w.its_type(), &VarType::Char);
    assert_eq!(ConstType::of_constant(&Constant::Char('x')), ConstType::Char);
    assert_eq!(
        VarType::try_from_expr(&Expr::Const(Constant::Boolean(true))),
        Ok(VarType::Bool)
    );
    assert_eq!(
        VarType::try_from_expr(&name("a").to_expr()),
        Err(FromValueError::UnknownType)
    );
}

#[test]
fn unicode_whitespace_trimmed() {
    let n = RawNode::node(
        Rule::Assign,
        "",
        vec![leaf(Rule::VarName, "\u{c}a\u{a0}"), leaf(Rule::Expr, "\u{2028}1 + 1\u{3000}\u{b}")],
    );
    assert_eq!(try_into_stmt(&n), Ok(Stmt::Assign(name("a"), RawExpr::new("1 + 1"))));
}
