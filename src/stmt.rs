//! Statements, with their expressions kept as raw text.
use vstd::prelude::*;

use crate::deser::{RawNode, Rule};
use crate::error::DError;
use crate::expr::VarName;
use crate::lexer::{chars_of, string_of};

verus! {

/// The source text of an expression, not yet parsed.
#[derive(Debug, Clone, PartialEq)]
pub struct RawExpr(pub String);

impl View for RawExpr {
    type V = Seq<char>;

    open spec fn view(&self) -> Seq<char> {
        self.0@
    }
}

impl RawExpr {
    pub fn new(s: &str) -> (r: RawExpr)
        ensures
            r@ == s@,
    {
        RawExpr(String::from_str(s))
    }
}

/// A statement.
#[derive(Debug, PartialEq)]
pub enum Stmt {
    Assign(VarName, RawExpr),
    Print(RawExpr),
    Read(VarName),
    If(RawExpr, Vec<Stmt>),
    IfElse(RawExpr, Vec<Stmt>, Vec<Stmt>),
    While(RawExpr, Vec<Stmt>),
}

/// The model of a statement.
pub enum StmtV {
    Assign(Seq<char>, Seq<char>),
    Print(Seq<char>),
    Read(Seq<char>),
    If(Seq<char>, Seq<StmtV>),
    IfElse(Seq<char>, Seq<StmtV>, Seq<StmtV>),
    While(Seq<char>, Seq<StmtV>),
}

pub open spec fn stmt_view(s: Stmt) -> StmtV
    decreases s, 1nat,
{
    match s {
        Stmt::Assign(n, e) => StmtV::Assign(n@, e@),
        Stmt::Print(e) => StmtV::Print(e@),
        Stmt::Read(n) => StmtV::Read(n@),
        Stmt::If(c, b) => StmtV::If(c@, block_view(b, b@.len())),
        Stmt::IfElse(c, b, e) => StmtV::IfElse(c@, block_view(b, b@.len()), block_view(e, e@.len())),
        Stmt::While(c, b) => StmtV::While(c@, block_view(b, b@.len())),
    }
}

/// The models of the first `n` statements of `b`.
pub open spec fn block_view(b: Vec<Stmt>, n: nat) -> Seq<StmtV>
    decreases b, n,
{
    if n == 0 || n > b@.len() {
        Seq::empty()
    } else {
        block_view(b, (n - 1) as nat).push(stmt_view(b@[n - 1]))
    }
}

impl View for Stmt {
    type V = StmtV;

    open spec fn view(&self) -> StmtV {
        stmt_view(*self)
    }
}

/// A Unicode white-space character: tab through carriage return, space,
/// next line, no-break space, ogham space mark, the spaces from en quad to
/// hair space, line and paragraph separators, narrow no-break space, medium
/// mathematical space and ideographic space.
pub open spec fn is_ws_char(c: char) -> bool {
    ('\u{9}' <= c && c <= '\u{d}') || c == ' ' || c == '\u{85}' || c == '\u{a0}' || c == '\u{1680}'
        || ('\u{2000}' <= c && c <= '\u{200a}') || c == '\u{2028}' || c == '\u{2029}' || c
        == '\u{202f}' || c == '\u{205f}' || c == '\u{3000}'
}

/// Whether `c` is a Unicode white-space character.
pub fn is_whitespace(c: char) -> (r: bool)
    ensures
        r == is_ws_char(c),
{
    ('\u{9}' <= c && c <= '\u{d}') || c == ' ' || c == '\u{85}' || c == '\u{a0}' || c == '\u{1680}'
        || ('\u{2000}' <= c && c <= '\u{200a}') || c == '\u{2028}' || c == '\u{2029}' || c
        == '\u{202f}' || c == '\u{205f}' || c == '\u{3000}'
}

/// `s` without leading whitespace.
pub open spec fn trim_start(s: Seq<char>) -> Seq<char>
    decreases s.len(),
{
    if s.len() > 0 && is_ws_char(s[0]) {
        trim_start(s.skip(1))
    } else {
        s
    }
}

/// `s` without trailing whitespace.
pub open spec fn trim_end(s: Seq<char>) -> Seq<char>
    decreases s.len(),
{
    if s.len() > 0 && is_ws_char(s.last()) {
        trim_end(s.drop_last())
    } else {
        s
    }
}

/// `s` without surrounding whitespace.
pub open spec fn trim(s: Seq<char>) -> Seq<char> {
    trim_end(trim_start(s))
}

/// The statement that a statement node stands for; expressions and names
/// are kept as their trimmed text.
pub open spec fn stmt_of(n: RawNode) -> Result<StmtV, DError>
    decreases n, 2nat, 0nat,
{
    let ch = n.children@;
    match n.rule {
        Rule::Stmt => if ch.len() >= 1 {
            stmt_of(ch[0])
        } else {
            Err(DError::UnknownExpression)
        },
        Rule::Read => if ch.len() >= 1 {
            Ok(StmtV::Read(trim(ch[0].text@)))
        } else {
            Err(DError::UnknownExpression)
        },
        Rule::Print => if ch.len() >= 1 {
            Ok(StmtV::Print(trim(ch[0].text@)))
        } else {
            Err(DError::UnknownExpression)
        },
        Rule::Assign => if ch.len() >= 2 {
            Ok(StmtV::Assign(trim(ch[0].text@), trim(ch[1].text@)))
        } else {
            Err(DError::UnknownExpression)
        },
        Rule::IfStmt => if ch.len() >= 2 {
            match block_of(ch[1]) {
                Ok(b) => Ok(StmtV::If(trim(ch[0].text@), b)),
                Err(e) => Err(e),
            }
        } else {
            Err(DError::UnknownExpression)
        },
        Rule::WhileStmt => if ch.len() >= 2 {
            match block_of(ch[1]) {
                Ok(b) => Ok(StmtV::While(trim(ch[0].text@), b)),
                Err(e) => Err(e),
            }
        } else {
            Err(DError::UnknownExpression)
        },
        _ => Err(DError::UnknownRule),
    }
}

/// The statements of a block node.
pub open spec fn block_of(n: RawNode) -> Result<Seq<StmtV>, DError>
    decreases n, 1nat, 0nat,
{
    if n.rule == Rule::Stmts {
        block_items(n, 0)
    } else {
        Err(DError::UnknownRule)
    }
}

/// The statements of a block node from child `i` on.
pub open spec fn block_items(n: RawNode, i: int) -> Result<Seq<StmtV>, DError>
    decreases n, 0nat, (n.children@.len() - i) as nat,
{
    let ch = n.children@;
    if i < 0 || i >= ch.len() {
        Ok(Seq::empty())
    } else {
        match stmt_of(ch[i]) {
            Err(e) => Err(e),
            Ok(s) => match block_items(n, i + 1) {
                Err(e) => Err(e),
                Ok(r) => Ok(seq![s] + r),
            },
        }
    }
}

pub open spec fn stmt_result(r: Result<Stmt, DError>) -> Result<StmtV, DError> {
    match r {
        Ok(s) => Ok(s@),
        Err(e) => Err(e),
    }
}

pub open spec fn block_result(r: Result<Vec<Stmt>, DError>) -> Result<Seq<StmtV>, DError> {
    match r {
        Ok(b) => Ok(block_view(b, b@.len())),
        Err(e) => Err(e),
    }
}

/// The text of a node without surrounding whitespace.
fn trimmed_text(n: &RawNode) -> (r: String)
    ensures
        r@ == trim(n.text@),
{
    let v = chars_of(n.text.as_str());
    assert(v@.skip(0) =~= v@);
    let mut lo: usize = 0;
    while lo < v.len() && is_whitespace(v[lo])
        invariant
            lo <= v@.len(),
            trim_start(v@) == trim_start(v@.skip(lo as int)),
        decreases v@.len() - lo,
    {
        assert(v@.skip(lo as int).skip(1) =~= v@.skip(lo + 1));
        lo = lo + 1;
    }
    assert(trim_start(v@) == v@.skip(lo as int));
    let mut hi: usize = v.len();
    while hi > lo && is_whitespace(v[hi - 1])
        invariant
            lo <= hi <= v@.len(),
            trim(v@) == trim_end(v@.subrange(lo as int, hi as int)),
        decreases hi,
    {
        assert(v@.subrange(lo as int, hi as int).drop_last() =~= v@.subrange(lo as int, hi - 1));
        hi = hi - 1;
    }
    assert(v@.skip(lo as int) =~= v@.subrange(lo as int, v@.len() as int));
    string_of(&v, lo, hi)
}

/// The statement that a statement node stands for.
pub fn try_into_stmt(node: &RawNode) -> (r: Result<Stmt, DError>)
    ensures
        stmt_result(r) == stmt_of(*node),
    decreases node, 2nat,
{
    let ch = &node.children;
    proof {
        assert(decreases_to!(*node => node.children));
    }
    match node.rule {
        Rule::Stmt => {
            if ch.len() >= 1 {
                try_into_stmt(&ch[0])
            } else {
                Err(DError::UnknownExpression)
            }
        },
        Rule::Read => {
            if ch.len() >= 1 {
                Ok(Stmt::Read(VarName(trimmed_text(&ch[0]))))
            } else {
                Err(DError::UnknownExpression)
            }
        },
        Rule::Print => {
            if ch.len() >= 1 {
                Ok(Stmt::Print(RawExpr(trimmed_text(&ch[0]))))
            } else {
                Err(DError::UnknownExpression)
            }
        },
        Rule::Assign => {
            if ch.len() >= 2 {
                Ok(Stmt::Assign(VarName(trimmed_text(&ch[0])), RawExpr(trimmed_text(&ch[1]))))
            } else {
                Err(DError::UnknownExpression)
            }
        },
        Rule::IfStmt | Rule::WhileStmt => {
            if ch.len() < 2 {
                return Err(DError::UnknownExpression);
            }
            let cond = RawExpr(trimmed_text(&ch[0]));
            let body = match try_into_stmts(&ch[1]) {
                Ok(b) => b,
                Err(e) => {
                    return Err(e);
                },
            };
            if node.rule == Rule::IfStmt {
                Ok(Stmt::If(cond, body))
            } else {
                Ok(Stmt::While(cond, body))
            }
        },
        _ => Err(DError::UnknownRule),
    }
}

/// The statements of a block node, in order.
pub fn try_into_stmts(node: &RawNode) -> (r: Result<Vec<Stmt>, DError>)
    ensures
        block_result(r) == block_of(*node),
    decreases node, 1nat,
{
    if node.rule != Rule::Stmts {
        return Err(DError::UnknownRule);
    }
    let ch = &node.children;
    proof {
        assert(decreases_to!(*node => node.children));
    }
    let mut out: Vec<Stmt> = Vec::new();
    let mut i: usize = 0;
    while i < ch.len()
        invariant
            i <= ch@.len(),
            node.rule == Rule::Stmts,
            *ch == node.children,
            decreases_to!(*node => node.children),
            block_items(*node, 0) == match block_items(*node, i as int) {
                Ok(r) => Ok(block_view(out, out@.len()) + r),
                Err(e) => Err::<Seq<StmtV>, DError>(e),
            },
        decreases ch@.len() - i,
    {
        let s = match try_into_stmt(&ch[i]) {
            Ok(s) => s,
            Err(e) => {
                return Err(e);
            },
        };
        let ghost before = out;
        out.push(s);
        proof {
            assert(out@.take(before@.len() as int) =~= before@);
            lemma_block_view_push(before, out);
            match block_items(*node, i + 1) {
                Ok(r) => {
                    assert(block_view(before, before@.len()) + (seq![s@] + r) =~= block_view(
                        out,
                        out@.len(),
                    ) + r);
                },
                Err(_) => {},
            }
        }
        i = i + 1;
    }
    proof {
        assert(block_view(out, out@.len()) + Seq::<StmtV>::empty() =~= block_view(
            out,
            out@.len(),
        ));
    }
    Ok(out)
}

proof fn lemma_block_view_prefix(a: Vec<Stmt>, b: Vec<Stmt>, n: nat)
    requires
        n <= a@.len(),
        n <= b@.len(),
        a@.take(n as int) == b@.take(n as int),
    ensures
        block_view(a, n) == block_view(b, n),
    decreases n,
{
    if n > 0 {
        assert(a@.take(n - 1) =~= a@.take(n as int).take(n - 1));
        assert(b@.take(n - 1) =~= b@.take(n as int).take(n - 1));
        assert(a@[n - 1] == a@.take(n as int)[n - 1]);
        assert(b@[n - 1] == b@.take(n as int)[n - 1]);
        lemma_block_view_prefix(a, b, (n - 1) as nat);
    }
}

proof fn lemma_block_view_push(before: Vec<Stmt>, after: Vec<Stmt>)
    requires
        after@.len() == before@.len() + 1,
        after@.take(before@.len() as int) == before@,
    ensures
        block_view(after, after@.len()) == block_view(before, before@.len()).push(
            stmt_view(after@[before@.len() as int]),
        ),
{
    assert(before@.take(before@.len() as int) =~= before@);
    lemma_block_view_prefix(before, after, before@.len());
}

} // verus!
