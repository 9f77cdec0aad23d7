//! Sums over the positions of a season, and the facts about them that the
//! ledger's accounting rests on.

use vstd::prelude::*;

use crate::types::InvestorPosition;

verus! {

/// The sum of `f` over a list of positions.
pub open spec fn sum_over(ps: Seq<InvestorPosition>, f: spec_fn(InvestorPosition) -> int) -> int
    decreases ps.len(),
{
    if ps.len() == 0 {
        0
    } else {
        sum_over(ps.drop_last(), f) + f(ps.last())
    }
}

/// The shares of a position.
pub open spec fn shares_of() -> spec_fn(InvestorPosition) -> int {
    |p: InvestorPosition| p.shares as int
}

/// The money that a position paid in.
pub open spec fn invested_of() -> spec_fn(InvestorPosition) -> int {
    |p: InvestorPosition| p.invested_amount as int
}

/// The payout that a position has claimed so far.
pub open spec fn claimed_of() -> spec_fn(InvestorPosition) -> int {
    |p: InvestorPosition| p.claimed_amount as int
}

/// The money that has been refunded to a position.
pub open spec fn refunded_of() -> spec_fn(InvestorPosition) -> int {
    |p: InvestorPosition| if p.refunded { p.invested_amount as int } else { 0 }
}

/// Appending a position adds its term.
pub proof fn lemma_sum_push(ps: Seq<InvestorPosition>, p: InvestorPosition, f: spec_fn(InvestorPosition) -> int)
    ensures
        sum_over(ps.push(p), f) == sum_over(ps, f) + f(p),
{
    assert(ps.push(p).drop_last() =~= ps);
}

/// Replacing a position swaps its term for the new one's.
pub proof fn lemma_sum_update(
    ps: Seq<InvestorPosition>,
    i: int,
    p: InvestorPosition,
    f: spec_fn(InvestorPosition) -> int,
)
    requires
        0 <= i < ps.len(),
    ensures
        sum_over(ps.update(i, p), f) == sum_over(ps, f) - f(ps[i]) + f(p),
    decreases ps.len(),
{
    let qs = ps.update(i, p);
    if i == ps.len() - 1 {
        assert(qs.drop_last() =~= ps.drop_last());
    } else {
        assert(qs.drop_last() =~= ps.drop_last().update(i, p));
        lemma_sum_update(ps.drop_last(), i, p, f);
    }
}

/// Termwise at most gives at most in sum.
pub proof fn lemma_sum_le(ps: Seq<InvestorPosition>, f: spec_fn(InvestorPosition) -> int, g: spec_fn(InvestorPosition) -> int)
    requires
        forall|i: int| 0 <= i < ps.len() ==> f(#[trigger] ps[i]) <= g(ps[i]),
    ensures
        sum_over(ps, f) <= sum_over(ps, g),
    decreases ps.len(),
{
    if ps.len() > 0 {
        let qs = ps.drop_last();
        assert forall|i: int| 0 <= i < qs.len() implies f(#[trigger] qs[i]) <= g(qs[i]) by {
            assert(qs[i] == ps[i]);
        }
        lemma_sum_le(qs, f, g);
        assert(f(ps[ps.len() - 1]) <= g(ps[ps.len() - 1]));
    }
}

/// All terms zero give a zero sum.
pub proof fn lemma_sum_zero(ps: Seq<InvestorPosition>, f: spec_fn(InvestorPosition) -> int)
    requires
        forall|i: int| 0 <= i < ps.len() ==> f(#[trigger] ps[i]) == 0,
    ensures
        sum_over(ps, f) == 0,
    decreases ps.len(),
{
    if ps.len() > 0 {
        let qs = ps.drop_last();
        assert forall|i: int| 0 <= i < qs.len() implies f(#[trigger] qs[i]) == 0 by {
            assert(qs[i] == ps[i]);
        }
        lemma_sum_zero(qs, f);
        assert(f(ps[ps.len() - 1]) == 0);
    }
}

/// Where each term of `f`, scaled by `a`, is at most the term of `g` scaled
/// by `b`, the same holds of the sums.
pub proof fn lemma_sum_scaled_le(
    ps: Seq<InvestorPosition>,
    f: spec_fn(InvestorPosition) -> int,
    a: int,
    g: spec_fn(InvestorPosition) -> int,
    b: int,
)
    requires
        forall|i: int| 0 <= i < ps.len() ==> f(#[trigger] ps[i]) * a <= g(ps[i]) * b,
    ensures
        sum_over(ps, f) * a <= sum_over(ps, g) * b,
    decreases ps.len(),
{
    if ps.len() > 0 {
        let qs = ps.drop_last();
        assert forall|i: int| 0 <= i < qs.len() implies f(#[trigger] qs[i]) * a <= g(qs[i]) * b by {
            assert(qs[i] == ps[i]);
        }
        lemma_sum_scaled_le(qs, f, a, g, b);
        let x = ps[ps.len() - 1];
        assert(f(x) * a <= g(x) * b);
        let sf = sum_over(qs, f);
        let sg = sum_over(qs, g);
        assert((sf + f(x)) * a == sf * a + f(x) * a) by (nonlinear_arith);
        assert((sg + g(x)) * b == sg * b + g(x) * b) by (nonlinear_arith);
    }
}

/// With no negative term, a prefix sums to at most the whole.
pub proof fn lemma_sum_prefix_le(ps: Seq<InvestorPosition>, j: int, f: spec_fn(InvestorPosition) -> int)
    requires
        0 <= j <= ps.len(),
        forall|i: int| 0 <= i < ps.len() ==> f(#[trigger] ps[i]) >= 0,
    ensures
        sum_over(ps.take(j), f) <= sum_over(ps, f),
    decreases ps.len(),
{
    if j == ps.len() {
        assert(ps.take(j) =~= ps);
    } else {
        let qs = ps.drop_last();
        assert(ps.take(j) =~= qs.take(j));
        assert forall|i: int| 0 <= i < qs.len() implies f(#[trigger] qs[i]) >= 0 by {
            assert(qs[i] == ps[i]);
        }
        lemma_sum_prefix_le(qs, j, f);
        assert(f(ps[ps.len() - 1]) >= 0);
    }
}

/// With no negative term, each term is at most the sum.
pub proof fn lemma_term_le_sum(ps: Seq<InvestorPosition>, i: int, f: spec_fn(InvestorPosition) -> int)
    requires
        0 <= i < ps.len(),
        forall|j: int| 0 <= j < ps.len() ==> f(#[trigger] ps[j]) >= 0,
    ensures
        f(ps[i]) <= sum_over(ps, f),
    decreases ps.len(),
{
    let qs = ps.drop_last();
    assert forall|j: int| 0 <= j < qs.len() implies f(#[trigger] qs[j]) >= 0 by {
        assert(qs[j] == ps[j]);
    }
    if i < ps.len() - 1 {
        assert(qs[i] == ps[i]);
        lemma_term_le_sum(qs, i, f);
        assert(f(ps[ps.len() - 1]) >= 0);
    } else {
        lemma_sum_prefix_le(ps, ps.len() - 1, f);
        assert(ps.take(ps.len() - 1) =~= qs);
        lemma_sum_prefix_le(qs, 0, f);
        assert(qs.take(0) =~= Seq::<InvestorPosition>::empty());
    }
}

} // verus!
