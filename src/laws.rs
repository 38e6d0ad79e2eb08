//! Laws that relate the lexer, the serializer and the resolver.
use vstd::prelude::*;

use crate::constant::{
    const_text, const_wf, digit_char, escaped, escaped_all, escaped_in_string, float_text, float_wf, int_text,
    literal, nat_text, ConstV,
};
use crate::error::DError;
use crate::expr::ExprV;
use crate::lexer::{
    all_digits, bool_literal, char_body, char_literal, delimited, digit_value, digits_value,
    escape_target, find_dot, float_literal, inner, int_literal, is_digit_char, is_negative,
    kw_false, kw_hamis, kw_igaz, kw_true, prepend, sign_len, spells, string_body, string_literal, FloatV,
};
use crate::deser::{chain, deser, is_identifier, operand_index, RawNode, Rule};
use crate::ops::{
    binary_keyword, lemma_binary_keyword, lemma_unary_keyword, tier, unary_keyword, BinaryCode,
};
use crate::resolve::{lemma_pivot, max_tier, pivot, resolve};
use crate::serialize::expr_text;

verus! {

proof fn lemma_digit_char(d: nat)
    requires
        d < 10,
    ensures
        is_digit_char(digit_char(d)),
        digit_value(digit_char(d)) == d,
{
    let t = seq!['0', '1', '2', '3', '4', '5', '6', '7', '8', '9'];
    assert(digit_char(d) == t[d as int]);
    if d == 0 {
        assert(t[0] == '0');
    } else if d == 1 {
        assert(t[1] == '1');
    } else if d == 2 {
        assert(t[2] == '2');
    } else if d == 3 {
        assert(t[3] == '3');
    } else if d == 4 {
        assert(t[4] == '4');
    } else if d == 5 {
        assert(t[5] == '5');
    } else if d == 6 {
        assert(t[6] == '6');
    } else if d == 7 {
        assert(t[7] == '7');
    } else if d == 8 {
        assert(t[8] == '8');
    } else {
        assert(t[9] == '9');
    }
}

/// The decimal text of `n` is a non-empty run of digits whose value is `n`.
pub proof fn lemma_nat_text(n: nat)
    ensures
        nat_text(n).len() > 0,
        all_digits(nat_text(n)),
        digits_value(nat_text(n)) == n,
    decreases n,
{
    if n < 10 {
        lemma_digit_char(n);
        let s = nat_text(n);
        assert(s.drop_last() =~= Seq::<char>::empty());
        assert(digits_value(s.drop_last()) == 0);
    } else {
        lemma_nat_text(n / 10);
        lemma_digit_char(n % 10);
        let s = nat_text(n);
        assert(s.drop_last() =~= nat_text(n / 10));
        assert(n == (n / 10) * 10 + n % 10);
    }
}

/// A run of digits holds no point.
proof fn lemma_find_dot_digits(s: Seq<char>, k: int)
    requires
        0 <= k <= s.len(),
        all_digits(s.take(k)),
        k == s.len() || s[k] == '.',
    ensures
        find_dot(s) == k,
    decreases s.len(),
{
    if s.len() > 0 && k > 0 {
        assert(s.take(k)[0] == s[0]);
        assert forall|i: int| 0 <= i < k - 1 implies is_digit_char(#[trigger] s.skip(1).take(k - 1)[i]) by {
            assert(s.skip(1).take(k - 1)[i] == s.take(k)[i + 1]);
        }
        lemma_find_dot_digits(s.skip(1), k - 1);
    }
}

/// Text that starts with a digit or a sign is no boolean keyword.
proof fn lemma_not_keyword(s: Seq<char>)
    requires
        s.len() > 0,
        is_digit_char(s[0]) || s[0] == '-' || s[0] == '\'' || s[0] == '"',
    ensures
        bool_literal(s) is None,
{
    assert(!spells(s, kw_igaz())) by {
        if s.len() == kw_igaz().len() {
            assert(kw_igaz()[0] == 'I');
        }
    }
    assert(!spells(s, kw_true())) by {
        if s.len() == kw_true().len() {
            assert(kw_true()[0] == 'T');
        }
    }
    assert(!spells(s, kw_hamis())) by {
        if s.len() == kw_hamis().len() {
            assert(kw_hamis()[0] == 'H');
        }
    }
    assert(!spells(s, kw_false())) by {
        if s.len() == kw_false().len() {
            assert(kw_false()[0] == 'F');
        }
    }
}

proof fn lemma_int_round_trip(i: i32)
    ensures
        literal(int_text(i as int)) == Ok::<ConstV, DError>(ConstV::Int(i)),
{
    let n: nat = if i < 0 {
        (-i) as nat
    } else {
        i as nat
    };
    lemma_nat_text(n);
    let d = nat_text(n);
    let s = int_text(i as int);
    assert(is_digit_char(d[0]));
    if i < 0 {
        assert(s[0] == '-');
        assert(s.skip(1) =~= d);
    } else {
        assert(s == d);
    }
    assert(s.skip(sign_len(s)) =~= d);
    lemma_not_keyword(s);
    assert(s.last() == d.last());
    assert(is_digit_char(d[d.len() - 1]));
    assert(d.take(d.len() as int) =~= d);
    lemma_find_dot_digits(d, d.len() as int);
    assert(float_literal(s) is Err);
    assert(int_literal(s) == Ok::<i32, DError>(i));
}

proof fn lemma_float_round_trip(f: FloatV)
    requires
        float_wf(f),
    ensures
        literal(float_text(f)) == Ok::<ConstV, DError>(ConstV::Float(f)),
{
    let s = float_text(f);
    let core = f.whole + seq!['.'] + f.frac;
    let sign = if f.negative {
        seq!['-']
    } else {
        Seq::<char>::empty()
    };
    assert(s =~= sign + core);
    assert(is_digit_char(f.whole[0]));
    if f.negative {
        assert(s[0] == '-');
        assert(s.skip(1) =~= core);
    } else {
        assert(s =~= core);
        assert(s[0] == f.whole[0]);
    }
    assert(s.skip(sign_len(s)) =~= core);
    assert(is_negative(s) == f.negative);
    lemma_not_keyword(s);
    assert(core.last() == f.frac[f.frac.len() - 1]);
    assert(core.take(f.whole.len() as int) =~= f.whole);
    assert(core[f.whole.len() as int] == '.');
    lemma_find_dot_digits(core, f.whole.len() as int);
    assert(core.skip(f.whole.len() as int + 1) =~= f.frac);
    assert(float_literal(s) == Ok::<FloatV, DError>(f));
}

/// Escaping a character and decoding it gives the character back.
pub proof fn lemma_escape_round_trip(c: char)
    ensures
        escaped(c).len() == 1 ==> escaped(c)[0] == c && c != '\\' && c != '\'' && c != '"',
        escaped(c).len() == 2 ==> escaped(c)[0] == '\\' && escape_target(escaped(c)[1]) == Some(c),
        escaped(c).len() == 1 || escaped(c).len() == 2,
        char_body(escaped(c)) == Ok::<char, DError>(c),
{
}

/// Escaping a character inside a string and decoding it gives the
/// character back; a single quote is copied as it is.
pub proof fn lemma_string_escape_round_trip(c: char)
    ensures
        escaped_in_string(c).len() == 1 ==> escaped_in_string(c)[0] == c && c != '\\' && c != '"',
        escaped_in_string(c).len() == 2 ==> escaped_in_string(c)[0] == '\\' && escape_target(
            escaped_in_string(c)[1],
        ) == Some(c),
        escaped_in_string(c).len() == 1 || escaped_in_string(c).len() == 2,
        c == '\'' ==> escaped_in_string(c) == seq![c],
{
}

proof fn lemma_string_body_escaped(t: Seq<char>)
    ensures
        string_body(escaped_all(t)) == Ok::<Seq<char>, DError>(t),
    decreases t.len(),
{
    if t.len() > 0 {
        let e = escaped_all(t);
        let rest = t.skip(1);
        lemma_string_escape_round_trip(t[0]);
        lemma_string_body_escaped(rest);
        assert(e == escaped_in_string(t[0]) + escaped_all(rest));
        if escaped_in_string(t[0]).len() == 1 {
            assert(e[0] == t[0]);
            assert(e.skip(1) =~= escaped_all(rest));
            assert(string_body(e) == prepend(seq![t[0]], string_body(e.skip(1))));
        } else {
            assert(e[0] == '\\');
            assert(e[1] == escaped_in_string(t[0])[1]);
            assert(e.len() >= 2);
            assert(e.skip(2) =~= escaped_all(rest));
            assert(string_body(e) == prepend(seq![t[0]], string_body(e.skip(2))));
        }
        assert(seq![t[0]] + rest =~= t);
    } else {
        assert(escaped_all(t) =~= Seq::<char>::empty());
        assert(t =~= Seq::<char>::empty());
    }
}

/// Printing a constant and lexing the text gives the constant back; in
/// particular an escaped character or string decodes to what was escaped.
pub proof fn lemma_literal_round_trip(c: ConstV)
    requires
        const_wf(c),
    ensures
        literal(const_text(c)) == Ok::<ConstV, DError>(c),
{
    match c {
        ConstV::Int(i) => lemma_int_round_trip(i),
        ConstV::Float(f) => lemma_float_round_trip(f),
        ConstV::Boolean(b) => {
            let s = const_text(c);
            if b {
                assert(spells(s, kw_igaz()));
            } else {
                assert(spells(s, kw_hamis()));
                assert(!spells(s, kw_igaz()));
                assert(!spells(s, kw_true()));
            }
        },
        ConstV::Char(ch) => {
            let s = const_text(c);
            lemma_escape_round_trip(ch);
            lemma_not_keyword(s);
            assert(delimited(s, '\''));
            assert(inner(s) =~= escaped(ch));
            assert(char_literal(s) == Ok::<char, DError>(ch));
        },
        ConstV::Str(t) => {
            let s = const_text(c);
            lemma_not_keyword(s);
            lemma_string_body_escaped(t);
            assert(delimited(s, '"'));
            assert(inner(s) =~= escaped_all(t));
            assert(string_literal(s) == Ok::<Seq<char>, DError>(t));
        },
    }
}

/// A chain of one operand resolves to that operand, so resolving an
/// already folded expression again changes nothing.
pub proof fn lemma_resolve_idempotent(e: ExprV)
    ensures
        resolve(e, Seq::<(BinaryCode, ExprV)>::empty()) == e,
        resolve(resolve(e, Seq::<(BinaryCode, ExprV)>::empty()), Seq::<(BinaryCode, ExprV)>::empty())
            == resolve(e, Seq::<(BinaryCode, ExprV)>::empty()),
{
}


/// The tier of an expression's root operator (0 when it has none).
pub open spec fn top_tier(e: ExprV) -> nat {
    match e {
        ExprV::Binary(op, _, _) => tier(op),
        _ => 0,
    }
}

/// A tree whose printed text needs no parentheses beyond its own: an
/// operand of an infix operator binds tighter than it (or equally, on the
/// left), a prefix operator's operand is no infix application, and the base
/// of an index or slice is no operator application at all.
pub open spec fn well_shaped(e: ExprV) -> bool
    decreases e,
{
    match e {
        ExprV::Const(c) => const_wf(c),
        ExprV::Var(n) => is_identifier(n),
        ExprV::Unary(_, x) => !(*x is Binary) && well_shaped(*x),
        ExprV::Binary(op, l, r) => {
            &&& well_shaped(*l)
            &&& well_shaped(*r)
            &&& (*l is Binary ==> top_tier(*l) <= tier(op))
            &&& (*r is Binary ==> top_tier(*r) < tier(op))
        },
        ExprV::Paren(x) => well_shaped(*x),
        ExprV::Abs(x) => well_shaped(*x),
        ExprV::Index(b, i) => !(*b is Binary) && !(*b is Unary) && well_shaped(*b) && well_shaped(
            *i,
        ),
        ExprV::Slice(b, x, y) => !(*b is Binary) && !(*b is Unary) && well_shaped(*b)
            && well_shaped(*x) && well_shaped(*y),
    }
}

/// The flat chain of an expression: its leftmost operand, then each infix
/// operator with the operand that follows it, in text order.
pub open spec fn flatten(e: ExprV) -> (ExprV, Seq<(BinaryCode, ExprV)>)
    decreases e,
{
    match e {
        ExprV::Binary(op, l, r) => {
            let (hl, tl) = flatten(*l);
            let (hr, tr) = flatten(*r);
            (hl, tl + seq![(op, hr)] + tr)
        },
        _ => (e, Seq::empty()),
    }
}

/// `n` is a syntax tree of the printed text of `e`: each node covers the
/// text of its part, literals are whole `Constant` leaves, operators are
/// keyword nodes, and each infix application is one flat chain node.
pub open spec fn mirrors(n: RawNode, e: ExprV) -> bool
    decreases n, 1nat, 0nat,
{
    let ch = n.children@;
    &&& n.text@ == expr_text(e)
    &&& match e {
        ExprV::Const(_) => n.rule == Rule::Constant && ch.len() == 0,
        ExprV::Var(_) => n.rule == Rule::VarName,
        ExprV::Unary(op, x) => {
            &&& n.rule == Rule::Unary
            &&& ch.len() == operand_index(ch) + 1
            &&& ch[0].rule == Rule::UnaryOp
            &&& ch[0].text@ == unary_keyword(op)
            &&& mirrors(ch[operand_index(ch)], *x)
        },
        ExprV::Binary(_, _, _) => {
            &&& n.rule == Rule::Binary
            &&& ch.len() == 2 * flatten(e).1.len() + 1
            &&& mirrors(ch[0], flatten(e).0)
            &&& mirrors_chain(n, flatten(e).1, 0)
        },
        ExprV::Paren(x) => n.rule == Rule::Parentheses && ch.len() == 1 && mirrors(ch[0], *x),
        ExprV::Abs(x) => n.rule == Rule::Abs && ch.len() == 1 && mirrors(ch[0], *x),
        ExprV::Index(b, i) => n.rule == Rule::Index && ch.len() == 2 && mirrors(ch[0], *b)
            && mirrors(ch[1], *i),
        ExprV::Slice(b, x, y) => n.rule == Rule::Slice && ch.len() == 3 && mirrors(ch[0], *b)
            && mirrors(ch[1], *x) && mirrors(ch[2], *y),
    }
}

/// From pair `k` on, the children of the chain node `n` are the operator
/// nodes and operand trees of `t`.
pub open spec fn mirrors_chain(n: RawNode, t: Seq<(BinaryCode, ExprV)>, k: int) -> bool
    decreases n, 0nat, (t.len() - k) as nat,
{
    let ch = n.children@;
    if k < 0 || k >= t.len() || 2 * k + 2 >= ch.len() {
        true
    } else {
        &&& ch[2 * k + 1].rule == Rule::BinaryOp
        &&& ch[2 * k + 1].text@ == binary_keyword(t[k].0)
        &&& mirrors(ch[2 * k + 2], t[k].1)
        &&& mirrors_chain(n, t, k + 1)
    }
}

/// The chain of a well-shaped tree has well-shaped operands that are no
/// infix applications, operators no looser than the root, and resolves
/// back to the tree.
pub proof fn lemma_flatten(e: ExprV)
    requires
        well_shaped(e),
    ensures
        well_shaped(flatten(e).0),
        !(flatten(e).0 is Binary),
        forall|j: int|
            0 <= j < flatten(e).1.len() ==> well_shaped(#[trigger] flatten(e).1[j].1) && !(
            flatten(e).1[j].1 is Binary) && tier(flatten(e).1[j].0) <= top_tier(e),
        !(e is Binary) ==> flatten(e).1.len() == 0,
        resolve(flatten(e).0, flatten(e).1) == e,
    decreases e,
{
    if let ExprV::Binary(op, l, r) = e {
        lemma_flatten(*l);
        lemma_flatten(*r);
        let (hl, tl) = flatten(*l);
        let (hr, tr) = flatten(*r);
        let t = tl + seq![(op, hr)] + tr;
        let k = tl.len() as int;
        assert(flatten(e).1 == t);
        assert(t[k] == (op, hr));
        assert forall|j: int| 0 <= j < t.len() implies well_shaped(#[trigger] t[j].1) && !(
        t[j].1 is Binary) && tier(t[j].0) <= tier(op) by {
            if j < k {
                assert(t[j] == tl[j]);
            } else if j > k {
                assert(t[j] == tr[j - k - 1]);
            }
        }
        lemma_pivot(t);
        let p = pivot(t);
        assert(tier(t[p].0) <= tier(op));
        assert(tier(t[k].0) <= max_tier(t));
        assert(max_tier(t) == tier(op));
        if p < k {
            assert(tier(t[k].0) < max_tier(t));
        }
        if p > k {
            assert(t[p] == tr[p - k - 1]);
        }
        assert(p == k);
        assert(t.take(k) =~= tl);
        assert(t.skip(k + 1) =~= tr);
    }
}

/// Over pairs `k` on, a chain node that mirrors `t` deserializes to `t`.
proof fn lemma_chain_mirror(n: RawNode, t: Seq<(BinaryCode, ExprV)>, k: int)
    requires
        n.children@.len() == 2 * t.len() + 1,
        0 <= k <= t.len(),
        mirrors_chain(n, t, k),
        forall|j: int| 0 <= j < t.len() ==> well_shaped(#[trigger] t[j].1),
    ensures
        chain(n, 2 * k + 1) == Ok::<Seq<(BinaryCode, ExprV)>, DError>(t.skip(k)),
    decreases n, 0nat, (t.len() - k) as nat,
{
    if k < t.len() {
        let ch = n.children@;
        lemma_binary_keyword(t[k].0);
        lemma_deser_mirror(ch[2 * k + 2], t[k].1);
        lemma_chain_mirror(n, t, k + 1);
        assert(seq![(t[k].0, t[k].1)] + t.skip(k + 1) =~= t.skip(k));
    } else {
        assert(t.skip(k) =~= Seq::<(BinaryCode, ExprV)>::empty());
    }
}

/// A syntax tree of the printed text of a well-shaped expression
/// deserializes back to that expression: printing and parsing again gives
/// the same tree.
pub proof fn lemma_deser_mirror(n: RawNode, e: ExprV)
    requires
        well_shaped(e),
        mirrors(n, e),
    ensures
        deser(n) == Ok::<ExprV, DError>(e),
    decreases n, 1nat, 0nat,
{
    let ch = n.children@;
    match e {
        ExprV::Const(c) => {
            lemma_literal_round_trip(c);
        },
        ExprV::Var(_) => {},
        ExprV::Unary(op, x) => {
            lemma_unary_keyword(op);
            lemma_deser_mirror(ch[operand_index(ch)], *x);
        },
        ExprV::Binary(_, _, _) => {
            lemma_flatten(e);
            let (h, t) = flatten(e);
            lemma_deser_mirror(ch[0], h);
            lemma_chain_mirror(n, t, 0);
            assert(t.skip(0) =~= t);
        },
        ExprV::Paren(x) => {
            lemma_deser_mirror(ch[0], *x);
        },
        ExprV::Abs(x) => {
            lemma_deser_mirror(ch[0], *x);
        },
        ExprV::Index(b, i) => {
            lemma_deser_mirror(ch[0], *b);
            lemma_deser_mirror(ch[1], *i);
        },
        ExprV::Slice(b, x, y) => {
            lemma_deser_mirror(ch[0], *b);
            lemma_deser_mirror(ch[1], *x);
            lemma_deser_mirror(ch[2], *y);
        },
    }
}

} // verus!
