//! Checks that season records make a well-formed ledger, for loading.

use vstd::prelude::*;

use crate::ledger::{
    entitlement, investors_unique, position_ok, records_valid, season_ok,
    season_with_positions_ok, SeasonRecord,
};
use crate::sums::{invested_of, lemma_sum_prefix_le, shares_of, sum_over};
use crate::types::{HarvestSeason, HarvestStatus, InvestorPosition};

verus! {

/// Whether `s` keeps the bounds of a season of a well-formed ledger.
fn season_in_bounds(s: &HarvestSeason) -> (r: bool)
    ensures
        r == season_ok(*s),
{
    let settled = s.status == HarvestStatus::Settled;
    let priced = match s.shares_sold.checked_mul(s.price_per_share) {
        Some(v) => v == s.raised_amount,
        None => false,
    };
    s.total_shares > 0 && s.price_per_share > 0 && s.expected_yield_kg > 0 && 0 <= s.shares_sold
        && s.shares_sold <= s.total_shares && s.raised_amount >= 0 && priced && (!settled || (
    s.payout_pool > 0 && s.shares_sold > 0)) && (settled || s.payout_pool == 0)
}

/// Whether `p` keeps the bounds of a position of season `s`.
fn position_in_bounds(p: &InvestorPosition, s: &HarvestSeason) -> (r: bool)
    requires
        season_ok(*s),
    ensures
        r == position_ok(*p, *s),
{
    if p.shares <= 0 || p.invested_amount <= 0 || p.claimed_amount < 0 {
        return false;
    }
    if p.refunded && s.status != HarvestStatus::Cancelled {
        return false;
    }
    if s.status != HarvestStatus::Settled {
        return p.claimed_amount == 0;
    }
    if p.claimed_amount == 0 {
        return true;
    }
    match s.payout_pool.checked_mul(p.shares) {
        None => false,
        Some(gross) => {
            proof {
                assert(s.payout_pool * p.shares > 0) by (nonlinear_arith)
                    requires
                        s.payout_pool > 0,
                        p.shares > 0,
                ;
            }
            let entitled = gross / s.shares_sold;
            proof {
                assert(entitled == entitlement(*s, p.shares as int));
            }
            p.claimed_amount <= entitled
        },
    }
}

/// Whether no investor holds two positions in `ps`.
fn investors_distinct(ps: &Vec<InvestorPosition>) -> (r: bool)
    ensures
        r == investors_unique(ps@),
{
    let n = ps.len();
    let mut a: usize = 0;
    while a < n
        invariant
            n == ps@.len(),
            a <= n,
            forall|x: int, y: int|
                0 <= x < a && 0 <= y < n && (#[trigger] ps@[x]).investor@ == (#[trigger] ps@[y]).investor@ ==> x == y,
        decreases n - a,
    {
        let mut b: usize = 0;
        while b < n
            invariant
                n == ps@.len(),
                a < n,
                b <= n,
                forall|x: int, y: int|
                    0 <= x < a && 0 <= y < n && (#[trigger] ps@[x]).investor@ == (#[trigger] ps@[y]).investor@ ==> x == y,
                forall|y: int| 0 <= y < b && (#[trigger] ps@[y]).investor@ == ps@[a as int].investor@ ==> y == a,
            decreases n - b,
        {
            if b != a && ps[a].investor == ps[b].investor {
                return false;
            }
            b = b + 1;
        }
        a = a + 1;
    }
    true
}

/// Whether the shares (or, where `of_shares` is false, the money paid in)
/// of the positions `ps` add up to `target`.
fn total_is(ps: &Vec<InvestorPosition>, target: i128, of_shares: bool) -> (r: bool)
    requires
        target >= 0,
        forall|j: int| 0 <= j < ps@.len() ==> (#[trigger] ps@[j]).shares > 0 && ps@[j].invested_amount > 0,
    ensures
        r == (sum_over(ps@, if of_shares { shares_of() } else { invested_of() }) == target),
{
    let ghost f = if of_shares { shares_of() } else { invested_of() };
    let mut partial: i128 = 0;
    let mut j: usize = 0;
    proof {
        assert(ps@.take(0) =~= Seq::<InvestorPosition>::empty());
    }
    while j < ps.len()
        invariant
            j <= ps@.len(),
            f == (if of_shares { shares_of() } else { invested_of() }),
            forall|k: int| 0 <= k < ps@.len() ==> (#[trigger] ps@[k]).shares > 0 && ps@[k].invested_amount > 0,
            partial == sum_over(ps@.take(j as int), f),
            target >= 0,
        decreases ps@.len() - j,
    {
        let term = if of_shares { ps[j].shares } else { ps[j].invested_amount };
        proof {
            assert(ps@.take(j + 1).drop_last() =~= ps@.take(j as int));
            assert(f(ps@[j as int]) == term);
            assert forall|k: int| 0 <= k < ps@.len() implies f(#[trigger] ps@[k]) >= 0 by {
                assert(ps@[k].shares > 0 && ps@[k].invested_amount > 0);
            }
            lemma_sum_prefix_le(ps@, j + 1, f);
        }
        match partial.checked_add(term) {
            Some(v) => {
                partial = v;
            },
            None => {
                return false;
            },
        }
        j = j + 1;
    }
    proof {
        assert(ps@.take(j as int) =~= ps@);
    }
    partial == target
}

/// Whether a season with its positions is in bounds and adds up.
fn record_valid(rec: &SeasonRecord) -> (r: bool)
    ensures
        r == season_with_positions_ok(rec.season, rec.positions@),
{
    if !season_in_bounds(&rec.season) {
        return false;
    }
    if !investors_distinct(&rec.positions) {
        return false;
    }
    let ps = &rec.positions;
    let mut j: usize = 0;
    while j < ps.len()
        invariant
            ps@ == rec.positions@,
            season_ok(rec.season),
            investors_unique(ps@),
            j <= ps@.len(),
            forall|k: int| 0 <= k < j ==> position_ok(#[trigger] ps@[k], rec.season),
        decreases ps@.len() - j,
    {
        if !position_in_bounds(&ps[j], &rec.season) {
            proof {
                assert(!position_ok(ps@[j as int], rec.season));
            }
            return false;
        }
        j = j + 1;
    }
    total_is(ps, rec.season.shares_sold, true) && total_is(ps, rec.season.raised_amount, false)
}

/// Whether `records` make a well-formed ledger.
pub fn records_are_valid(records: &Vec<SeasonRecord>) -> (r: bool)
    ensures
        r == records_valid(records@),
{
    let n = records.len();
    let mut a: usize = 0;
    while a < n
        invariant
            n == records@.len(),
            a <= n,
            forall|x: int, y: int|
                0 <= x < a && 0 <= y < n && (#[trigger] records@[x]).season_id@ == (#[trigger] records@[y]).season_id@
                    ==> x == y,
            forall|x: int| 0 <= x < a ==> season_with_positions_ok(#[trigger] records@[x].season, records@[x].positions@),
        decreases n - a,
    {
        if !record_valid(&records[a]) {
            return false;
        }
        let mut b: usize = 0;
        while b < n
            invariant
                n == records@.len(),
                a < n,
                b <= n,
                forall|x: int, y: int|
                    0 <= x < a && 0 <= y < n && (#[trigger] records@[x]).season_id@
                        == (#[trigger] records@[y]).season_id@ ==> x == y,
                forall|y: int|
                    0 <= y < b && (#[trigger] records@[y]).season_id@ == records@[a as int].season_id@ ==> y == a,
            decreases n - b,
        {
            if b != a && records[a].season_id == records[b].season_id {
                return false;
            }
            b = b + 1;
        }
        a = a + 1;
    }
    true
}

} // verus!
