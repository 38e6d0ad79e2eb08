//! Folding a flat chain `e0 op1 e1 op2 e2 ...` into a binary tree that
//! follows the precedence tiers and associates to the left within a tier.
use vstd::prelude::*;

use crate::expr::{Binary, Expr, ExprV};
use crate::ops::{tier, BinaryCode};

verus! {

/// The model of the operator/operand pairs that follow a chain's head.
pub open spec fn pairs_view(t: Seq<(BinaryCode, Expr)>) -> Seq<(BinaryCode, ExprV)> {
    t.map_values(|p: (BinaryCode, Expr)| (p.0, p.1@))
}

/// The loosest tier among the operators of `t` (0 when there is none).
pub open spec fn max_tier(t: Seq<(BinaryCode, ExprV)>) -> nat
    decreases t.len(),
{
    if t.len() == 0 {
        0
    } else {
        let m = max_tier(t.drop_last());
        let x = tier(t.last().0);
        if x > m {
            x
        } else {
            m
        }
    }
}

/// The index of the last operator of tier `k` in `t`, or -1.
pub open spec fn last_at_tier(t: Seq<(BinaryCode, ExprV)>, k: nat) -> int
    decreases t.len(),
{
    if t.len() == 0 {
        -1
    } else if tier(t.last().0) == k {
        t.len() - 1
    } else {
        last_at_tier(t.drop_last(), k)
    }
}

/// Where a chain splits: its last operator of the loosest tier, which
/// becomes the root of the tree.
pub open spec fn pivot(t: Seq<(BinaryCode, ExprV)>) -> int {
    last_at_tier(t, max_tier(t))
}

/// The tree of the chain `head t[0].0 t[0].1 t[1].0 t[1].1 ...`: its root is
/// the last operator of the loosest tier present, and both sides are
/// resolved the same way.
pub open spec fn resolve(head: ExprV, t: Seq<(BinaryCode, ExprV)>) -> ExprV
    decreases t.len(),
{
    if t.len() == 0 {
        head
    } else {
        let k = pivot(t);
        if 0 <= k < t.len() {
            ExprV::Binary(
                t[k].0,
                Box::new(resolve(head, t.take(k))),
                Box::new(resolve(t[k].1, t.skip(k + 1))),
            )
        } else {
            head
        }
    }
}

proof fn lemma_last_at_tier_bounds(t: Seq<(BinaryCode, ExprV)>, k: nat)
    ensures
        -1 <= last_at_tier(t, k) < t.len(),
        last_at_tier(t, k) >= 0 ==> tier(t[last_at_tier(t, k)].0) == k,
        forall|j: int| last_at_tier(t, k) < j < t.len() ==> tier(#[trigger] t[j].0) != k,
    decreases t.len(),
{
    if t.len() > 0 && tier(t.last().0) != k {
        lemma_last_at_tier_bounds(t.drop_last(), k);
        assert forall|j: int| last_at_tier(t, k) < j < t.len() implies tier(#[trigger] t[j].0) != k by {
            if j < t.len() - 1 {
                assert(t.drop_last()[j] == t[j]);
            }
        }
    }
}

/// The loosest tier is that of some operator, and no operator is looser.
pub proof fn lemma_max_tier(t: Seq<(BinaryCode, ExprV)>)
    ensures
        forall|j: int| 0 <= j < t.len() ==> tier(#[trigger] t[j].0) <= max_tier(t),
        t.len() > 0 ==> exists|j: int| 0 <= j < t.len() && tier(#[trigger] t[j].0) == max_tier(t),
    decreases t.len(),
{
    if t.len() > 0 {
        let d = t.drop_last();
        lemma_max_tier(d);
        assert forall|j: int| 0 <= j < t.len() implies tier(#[trigger] t[j].0) <= max_tier(t) by {
            if j < t.len() - 1 {
                assert(d[j] == t[j]);
            }
        }
        if tier(t.last().0) >= max_tier(d) {
            assert(tier(t[t.len() - 1].0) == max_tier(t));
        } else {
            let j = choose|j: int| 0 <= j < d.len() && tier(#[trigger] d[j].0) == max_tier(d);
            assert(d[j] == t[j]);
            assert(tier(t[j].0) == max_tier(t));
        }
    }
}

/// A non-empty chain has a pivot, with no operator of its tier after it.
pub proof fn lemma_pivot(t: Seq<(BinaryCode, ExprV)>)
    requires
        t.len() > 0,
    ensures
        0 <= pivot(t) < t.len(),
        tier(t[pivot(t)].0) == max_tier(t),
        forall|j: int| 0 <= j < t.len() ==> tier(#[trigger] t[j].0) <= max_tier(t),
        forall|j: int| pivot(t) < j < t.len() ==> tier(#[trigger] t[j].0) < max_tier(t),
{
    lemma_max_tier(t);
    lemma_last_at_tier_bounds(t, max_tier(t));
    if pivot(t) < 0 {
        let j = choose|j: int| 0 <= j < t.len() && tier(#[trigger] t[j].0) == max_tier(t);
        assert(tier(t[j].0) != max_tier(t));
    }
}

/// The position of the pivot of `t`.
fn find_pivot(t: &Vec<(BinaryCode, Expr)>) -> (k: usize)
    requires
        t@.len() > 0,
    ensures
        k == pivot(pairs_view(t@)),
{
    let ghost pv = pairs_view(t@);
    let mut m: u8 = 0;
    let mut i: usize = 0;
    while i < t.len()
        invariant
            i <= t@.len(),
            pv == pairs_view(t@),
            m as nat == max_tier(pv.take(i as int)),
            m <= 4,
        decreases t@.len() - i,
    {
        let x = t[i].0.tier();
        proof {
            assert(pv.take(i + 1).drop_last() =~= pv.take(i as int));
            assert(pv[i as int].0 == t@[i as int].0);
        }
        if x > m {
            m = x;
        }
        i = i + 1;
    }
    assert(pv.take(i as int) =~= pv);
    let ghost mt = max_tier(pv);
    let mut k: usize = t.len() - 1;
    while tier_of(t, k) != m
        invariant
            0 <= k < t@.len(),
            pv == pairs_view(t@),
            m as nat == mt,
            mt == max_tier(pv),
            last_at_tier(pv, mt) == last_at_tier(pv.take(k + 1), mt),
        decreases k,
    {
        proof {
            assert(pv.take(k + 1).drop_last() =~= pv.take(k as int));
            assert(pv[k as int].0 == t@[k as int].0);
            if k == 0 {
                lemma_pivot(pv);
                assert(last_at_tier(pv.take(0), mt) == -1);
                assert(false);
            }
        }
        k = k - 1;
    }
    proof {
        assert(pv[k as int].0 == t@[k as int].0);
        assert(pv.take(k + 1).last() == pv[k as int]);
    }
    k
}

/// The tier of `t[k]`'s operator.
fn tier_of(t: &Vec<(BinaryCode, Expr)>, k: usize) -> (r: u8)
    requires
        k < t@.len(),
    ensures
        r as nat == tier(t@[k as int].0),
{
    t[k].0.tier()
}

/// Folds the chain `head t[0].0 t[0].1 t[1].0 t[1].1 ...` into one tree:
/// tighter tiers are grouped first, and operators of one tier associate
/// to the left.
pub fn resolve_chain(head: Expr, t: Vec<(BinaryCode, Expr)>) -> (r: Expr)
    ensures
        r@ == resolve(head@, pairs_view(t@)),
    decreases t@.len(),
{
    if t.len() == 0 {
        return head;
    }
    let ghost pv = pairs_view(t@);
    let k = find_pivot(&t);
    proof {
        lemma_pivot(pv);
    }
    let mut left = t;
    let mut right = left.split_off(k);
    let (op, mid) = right.remove(0);
    proof {
        assert(pairs_view(left@) =~= pv.take(k as int));
        assert(pairs_view(right@) =~= pv.skip(k + 1));
        assert(pv[k as int] == (op, mid@));
    }
    let l = resolve_chain(head, left);
    let r = resolve_chain(mid, right);
    Expr::Binary(Binary { op, lhs: Box::new(l), rhs: Box::new(r) })
}

} // verus!
