//! What holds of the ledger across its operations: the escrow never owes
//! more than it holds, each operation moves it by exactly its transfer,
//! seasons only move forward, refunds and claims happen once, and saving
//! then loading gives the ledger back.

use vstd::prelude::*;

use crate::ledger::{
    entitlement, has_position_in, investors_unique, position_in, position_index, position_ok,
    records_valid, season_with_positions_ok, CafeTokenize,
};
use crate::sums::{
    claimed_of, invested_of, lemma_sum_le, lemma_sum_scaled_le, lemma_sum_update,
    lemma_sum_zero, refunded_of, shares_of, sum_over,
};
use crate::types::{CoffeeError, HarvestSeason, HarvestStatus, InvestorPosition, Outcome, Transfer};

verus! {

/// The change that the outcome of an operation makes to the escrow: that of
/// its transfer where it succeeded, none where it failed.
pub open spec fn outcome_delta(out: Outcome<Transfer>) -> int {
    match out.result {
        Ok(t) => t.escrow_delta(),
        Err(_) => 0,
    }
}

/// From `pre` to `post` the escrow of season `id` changed by `delta` and
/// that of every other season stayed as it was.
pub open spec fn escrow_moved(pre: CafeTokenize, post: CafeTokenize, id: Seq<char>, delta: int) -> bool {
    forall|k: Seq<char>|
        #[trigger] post.escrow_balance(k) == pre.escrow_balance(k) + (if k == id {
            delta
        } else {
            0
        })
}

/// The statuses a season may go to in one operation: it stays, an open
/// season becomes active or cancelled, an active one becomes settled.
pub open spec fn status_may_follow(a: HarvestStatus, b: HarvestStatus) -> bool {
    ||| a == b
    ||| a == HarvestStatus::Open && (b == HarvestStatus::Active || b == HarvestStatus::Cancelled)
    ||| a == HarvestStatus::Active && b == HarvestStatus::Settled
}

/// The terms that a season keeps from its creation on.
pub open spec fn terms_kept(a: HarvestSeason, b: HarvestSeason) -> bool {
    &&& b.farmer == a.farmer
    &&& b.coffee_type == a.coffee_type
    &&& b.region == a.region
    &&& b.total_shares == a.total_shares
    &&& b.price_per_share == a.price_per_share
    &&& b.asset == a.asset
    &&& b.expected_yield_kg == a.expected_yield_kg
    &&& b.harvest_date == a.harvest_date
}

/// Every season of `pre` is still in `post`, with the same terms, and with a
/// status that may follow its old one.
pub open spec fn seasons_evolve(pre: CafeTokenize, post: CafeTokenize) -> bool {
    forall|k: Seq<char>|
        #[trigger] pre.season(k) is Some ==> {
            &&& post.season(k) is Some
            &&& terms_kept(pre.season(k)->Some_0, post.season(k)->Some_0)
            &&& status_may_follow(pre.season(k)->Some_0.status, post.season(k)->Some_0.status)
        }
}

/// No season is ever sold beyond its shares: in a well-formed ledger the
/// shares sold lie between zero and the total, they are the sum of the
/// shares of the season's positions, and the capital raised is the sum of
/// what the positions paid.
pub proof fn lemma_shares_never_oversold(l: CafeTokenize, id: Seq<char>)
    requires
        l.wf(),
        l.season(id) is Some,
    ensures
        0 <= l.season(id)->Some_0.shares_sold <= l.season(id)->Some_0.total_shares,
        l.shares_held(id) == l.season(id)->Some_0.shares_sold,
        l.invested_total(id) == l.season(id)->Some_0.raised_amount,
{
    l.lemma_season_invariant(id);
}

/// The escrow never owes more than it holds: in a well-formed ledger the
/// claims on a settled season add up to at most its pool, and the refunds
/// of a cancelled season to at most its capital.
pub proof fn lemma_escrow_solvent(l: CafeTokenize, id: Seq<char>)
    requires
        l.wf(),
    ensures
        l.escrow_balance(id) >= 0,
        l.season(id) is Some && l.season(id)->Some_0.status == HarvestStatus::Settled ==> l.claimed_total(id)
            <= l.season(id)->Some_0.payout_pool,
        l.season(id) is Some && l.season(id)->Some_0.status == HarvestStatus::Cancelled ==> l.refunded_total(id)
            <= l.season(id)->Some_0.raised_amount,
{
    l.lemma_season_invariant(id);
    if let Some(s) = l.season(id) {
        let ps = l.positions_of(id);
        assert(season_with_positions_ok(s, ps));
        if s.status == HarvestStatus::Settled {
            let sold = s.shares_sold as int;
            let pool = s.payout_pool as int;
            assert forall|j: int| 0 <= j < ps.len() implies claimed_of()(#[trigger] ps[j]) * sold <= shares_of()(
                ps[j],
            ) * pool by {
                let p = ps[j];
                assert(position_ok(p, s));
                let c = p.claimed_amount as int;
                let sh = p.shares as int;
                assert(claimed_of()(p) == c);
                assert(shares_of()(p) == sh);
                assert(sh * pool > 0) by (nonlinear_arith)
                    requires
                        sh > 0,
                        pool > 0,
                ;
                if c == 0 {
                    assert(c * sold == 0) by (nonlinear_arith)
                        requires
                            c == 0,
                    ;
                } else {
                    assert(c <= (pool * sh) / sold);
                    assert(c * sold <= sh * pool) by (nonlinear_arith)
                        requires
                            c <= (pool * sh) / sold,
                            sold > 0,
                            sh * pool > 0,
                    {
                        assert(pool * sh == sh * pool);
                        assert(((pool * sh) / sold) * sold <= pool * sh);
                        assert(c * sold <= ((pool * sh) / sold) * sold);
                    }
                }
            }
            lemma_sum_scaled_le(ps, claimed_of(), sold, shares_of(), pool);
            let total = sum_over(ps, claimed_of());
            assert(total <= pool) by (nonlinear_arith)
                requires
                    total * sold <= sold * pool,
                    sold > 0,
            ;
        }
        if s.status == HarvestStatus::Cancelled {
            assert forall|j: int| 0 <= j < ps.len() implies refunded_of()(#[trigger] ps[j]) <= invested_of()(ps[j]) by {
                assert(position_ok(ps[j], s));
            }
            lemma_sum_le(ps, refunded_of(), invested_of());
        }
    }
}

/// Where nothing in season `id` is claimed (it is not settled) or nothing
/// refunded (it is not cancelled), the totals are zero.
pub(crate) proof fn lemma_untouched_totals(l: CafeTokenize, id: Seq<char>)
    requires
        l.wf(),
        l.season(id) is Some,
    ensures
        l.season(id)->Some_0.status != HarvestStatus::Settled ==> l.claimed_total(id) == 0,
        l.season(id)->Some_0.status != HarvestStatus::Cancelled ==> l.refunded_total(id) == 0,
{
    l.lemma_season_invariant(id);
    let s = l.season(id)->Some_0;
    let ps = l.positions_of(id);
    if s.status != HarvestStatus::Settled {
        assert forall|j: int| 0 <= j < ps.len() implies claimed_of()(#[trigger] ps[j]) == 0 by {
            assert(position_ok(ps[j], s));
        }
        lemma_sum_zero(ps, claimed_of());
    }
    if s.status != HarvestStatus::Cancelled {
        assert forall|j: int| 0 <= j < ps.len() implies refunded_of()(#[trigger] ps[j]) == 0 by {
            assert(position_ok(ps[j], s));
        }
        lemma_sum_zero(ps, refunded_of());
    }
}

/// In a list with one position per investor, the investor's position after
/// replacing it is the new one.
pub(crate) proof fn lemma_position_replaced(ps: Seq<InvestorPosition>, investor: Seq<char>, np: InvestorPosition)
    requires
        investors_unique(ps),
        has_position_in(ps, investor),
        np.investor@ == investor,
    ensures
        position_in(ps.update(position_index(ps, investor), np), investor) == Some(np),
{
    let i = position_index(ps, investor);
    let qs = ps.update(i, np);
    assert(qs[i].investor@ == investor);
    assert(has_position_in(qs, investor));
    let k = position_index(qs, investor);
    assert(qs[k].investor@ == investor);
    if k != i {
        assert(ps[k].investor@ == investor);
        assert(ps[i].investor@ == investor);
    }
}

/// The frame of one operation on season `id`: where every other season is
/// left alone, `id`'s escrow moved by `delta` and `id` (if it existed) kept
/// its terms and moved its status forward, the escrow moved by `delta` at
/// `id` only and the seasons evolved.
proof fn lemma_step_frame(pre: CafeTokenize, post: CafeTokenize, id: Seq<char>, delta: int)
    requires
        CafeTokenize::only_season_changed(pre, post, id),
        post.escrow_balance(id) == pre.escrow_balance(id) + delta,
        pre.season(id) is Some ==> {
            &&& post.season(id) is Some
            &&& terms_kept(pre.season(id)->Some_0, post.season(id)->Some_0)
            &&& status_may_follow(pre.season(id)->Some_0.status, post.season(id)->Some_0.status)
        },
    ensures
        escrow_moved(pre, post, id, delta),
        seasons_evolve(pre, post),
{
    assert forall|k: Seq<char>| #[trigger] post.escrow_balance(k) == pre.escrow_balance(k) + (if k == id {
        delta
    } else {
        0
    }) by {
        if k != id {
            assert(post.season(k) == pre.season(k));
            assert(post.positions_of(k) == pre.positions_of(k));
        }
    }
    assert forall|k: Seq<char>| #[trigger] pre.season(k) is Some implies {
        &&& post.season(k) is Some
        &&& terms_kept(pre.season(k)->Some_0, post.season(k)->Some_0)
        &&& status_may_follow(pre.season(k)->Some_0.status, post.season(k)->Some_0.status)
    } by {
        if k != id {
            assert(post.season(k) == pre.season(k));
        }
    }
}

/// Buying shares moves exactly their price into the season's escrow and no
/// other season's; every season keeps its terms and its status.
pub proof fn lemma_buy_shares_accounts(
    pre: CafeTokenize,
    season_id: String,
    investor: String,
    shares: i128,
    post: CafeTokenize,
    out: Outcome<Transfer>,
)
    requires
        pre.wf(),
        CafeTokenize::buy_shares_step(pre, season_id, investor, shares, post, out),
    ensures
        escrow_moved(pre, post, season_id@, outcome_delta(out)),
        seasons_evolve(pre, post),
{
    let id = season_id@;
    if pre.buy_shares_result(id, investor@, shares) is Ok {
        lemma_step_frame(pre, post, id, outcome_delta(out));
    }
}

/// Releasing the capital moves the whole capital out of the season's escrow
/// and no other season's; seasons keep their terms and their status moves
/// only forward.
pub proof fn lemma_release_capital_accounts(
    pre: CafeTokenize,
    season_id: String,
    caller: String,
    post: CafeTokenize,
    out: Outcome<Transfer>,
)
    requires
        pre.wf(),
        CafeTokenize::release_capital_step(pre, season_id, caller, post, out),
    ensures
        escrow_moved(pre, post, season_id@, outcome_delta(out)),
        seasons_evolve(pre, post),
{
    let id = season_id@;
    if pre.release_capital_result(id, caller@) is Ok {
        lemma_step_frame(pre, post, id, outcome_delta(out));
    }
}

/// Settling moves exactly the pool into the season's escrow and no other
/// season's; seasons keep their terms and their status moves only forward.
pub proof fn lemma_settle_payout_accounts(
    pre: CafeTokenize,
    season_id: String,
    payout_amount: i128,
    post: CafeTokenize,
    out: Outcome<Transfer>,
)
    requires
        pre.wf(),
        CafeTokenize::settle_payout_step(pre, season_id, payout_amount, post, out),
    ensures
        escrow_moved(pre, post, season_id@, outcome_delta(out)),
        seasons_evolve(pre, post),
{
    let id = season_id@;
    if pre.settle_payout_result(id, payout_amount) is Ok {
        lemma_untouched_totals(pre, id);
        lemma_step_frame(pre, post, id, outcome_delta(out));
    }
}

/// A claim moves exactly the amount paid out of the season's escrow and no
/// other season's; seasons keep their terms and status.
pub proof fn lemma_claim_payout_accounts(
    pre: CafeTokenize,
    season_id: String,
    investor: String,
    post: CafeTokenize,
    out: Outcome<Transfer>,
)
    requires
        pre.wf(),
        CafeTokenize::claim_payout_step(pre, season_id, investor, post, out),
    ensures
        escrow_moved(pre, post, season_id@, outcome_delta(out)),
        seasons_evolve(pre, post),
{
    let id = season_id@;
    if let Ok(amount) = pre.claim_payout_result(id, investor@) {
        let ps = pre.positions_of(id);
        let p = pre.position(id, investor@)->Some_0;
        let i = position_index(ps, investor@);
        assert(ps[i] == p);
        let np = InvestorPosition { claimed_amount: (p.claimed_amount + amount) as i128, ..p };
        lemma_sum_update(ps, i, np, claimed_of());
        lemma_step_frame(pre, post, id, outcome_delta(out));
    }
}

/// A refund moves exactly the investment out of the season's escrow and no
/// other season's; seasons keep their terms and status.
pub proof fn lemma_refund_investment_accounts(
    pre: CafeTokenize,
    season_id: String,
    investor: String,
    post: CafeTokenize,
    out: Outcome<Transfer>,
)
    requires
        pre.wf(),
        CafeTokenize::refund_investment_step(pre, season_id, investor, post, out),
    ensures
        escrow_moved(pre, post, season_id@, outcome_delta(out)),
        seasons_evolve(pre, post),
{
    let id = season_id@;
    if let Ok(amount) = pre.refund_investment_result(id, investor@) {
        let ps = pre.positions_of(id);
        let p = pre.position(id, investor@)->Some_0;
        let i = position_index(ps, investor@);
        assert(ps[i] == p);
        let np = InvestorPosition { refunded: true, ..p };
        lemma_sum_update(ps, i, np, refunded_of());
        lemma_step_frame(pre, post, id, outcome_delta(out));
    }
}

/// Creating a season moves no tokens: every escrow stays as it was (the new
/// season's starts empty), and every existing season is left alone.
pub proof fn lemma_create_season_accounts(
    pre: CafeTokenize,
    season_id: String,
    farmer: String,
    coffee_type: String,
    region: String,
    total_shares: i128,
    price_per_share: i128,
    asset: String,
    expected_yield_kg: i128,
    harvest_date: i64,
    post: CafeTokenize,
    out: Outcome<()>,
)
    requires
        pre.wf(),
        CafeTokenize::create_season_step(
            pre,
            season_id,
            farmer,
            coffee_type,
            region,
            total_shares,
            price_per_share,
            asset,
            expected_yield_kg,
            harvest_date,
            post,
            out,
        ),
    ensures
        escrow_moved(pre, post, season_id@, 0),
        seasons_evolve(pre, post),
{
    let id = season_id@;
    if out.result is Ok {
        lemma_step_frame(pre, post, id, 0);
    }
}

/// Cancelling moves no tokens: the cancelled season's escrow still holds its
/// whole capital, for refunds; seasons keep their terms and their status
/// moves only forward.
pub proof fn lemma_cancel_season_accounts(
    pre: CafeTokenize,
    season_id: String,
    caller: String,
    post: CafeTokenize,
    out: Outcome<()>,
)
    requires
        pre.wf(),
        CafeTokenize::cancel_season_step(pre, season_id, caller, post, out),
    ensures
        escrow_moved(pre, post, season_id@, 0),
        seasons_evolve(pre, post),
{
    let id = season_id@;
    if out.result is Ok {
        lemma_untouched_totals(pre, id);
        lemma_step_frame(pre, post, id, 0);
    }
}

/// A refunded investment cannot be refunded twice: after a refund succeeds,
/// asking again ends with `AlreadyRefunded`.
pub proof fn lemma_refund_only_once(
    pre: CafeTokenize,
    season_id: String,
    investor: String,
    post: CafeTokenize,
    out: Outcome<Transfer>,
)
    requires
        pre.wf(),
        CafeTokenize::refund_investment_step(pre, season_id, investor, post, out),
        out.result is Ok,
    ensures
        post.refund_investment_result(season_id@, investor@) == Err::<i128, CoffeeError>(CoffeeError::AlreadyRefunded),
{
    let id = season_id@;
    pre.lemma_season_invariant(id);
    assert(pre.refund_investment_result(id, investor@) is Ok);
    let ps = pre.positions_of(id);
    let p = pre.position(id, investor@)->Some_0;
    assert(ps[position_index(ps, investor@)] == p);
    lemma_position_replaced(ps, investor@, InvestorPosition { refunded: true, ..p });
}

/// A payout cannot be claimed twice: after a claim succeeds, the investor
/// holds their whole entitlement and claiming again ends with
/// `NothingToClaim`.
pub proof fn lemma_claim_only_once(
    pre: CafeTokenize,
    season_id: String,
    investor: String,
    post: CafeTokenize,
    out: Outcome<Transfer>,
)
    requires
        pre.wf(),
        CafeTokenize::claim_payout_step(pre, season_id, investor, post, out),
        out.result is Ok,
    ensures
        post.position(season_id@, investor@) matches Some(p) && p.claimed_amount == entitlement(
            pre.season(season_id@)->Some_0,
            p.shares as int,
        ),
        post.claim_payout_result(season_id@, investor@) == Err::<i128, CoffeeError>(CoffeeError::NothingToClaim),
{
    let id = season_id@;
    pre.lemma_season_invariant(id);
    assert(pre.claim_payout_result(id, investor@) is Ok);
    let amount = pre.claim_payout_result(id, investor@)->Ok_0;
    let ps = pre.positions_of(id);
    let p = pre.position(id, investor@)->Some_0;
    assert(ps[position_index(ps, investor@)] == p);
    let np = InvestorPosition { claimed_amount: (p.claimed_amount + amount) as i128, ..p };
    lemma_position_replaced(ps, investor@, np);
}

/// Handing the administration over moves no tokens and leaves every season
/// alone; afterwards the new administrator is the one recorded, and the
/// account that handed it over (if another) is refused a second hand-over.
pub proof fn lemma_transfer_admin_accounts(
    pre: CafeTokenize,
    current_admin: String,
    new_admin: String,
    post: CafeTokenize,
    out: Outcome<()>,
    next: String,
    post2: CafeTokenize,
    out2: Outcome<()>,
)
    requires
        pre.wf(),
        CafeTokenize::transfer_admin_step(pre, current_admin, new_admin, post, out),
        CafeTokenize::transfer_admin_step(post, current_admin, next, post2, out2),
    ensures
        forall|k: Seq<char>| #[trigger] post.escrow_balance(k) == pre.escrow_balance(k),
        seasons_evolve(pre, post),
        out.result is Ok ==> post.admin_id() == new_admin@,
        out.result is Ok && new_admin@ != current_admin@ ==> out2.result == Err::<(), CoffeeError>(
            CoffeeError::NotAuthorized,
        ) && post2 == post,
{
    assert forall|k: Seq<char>| #[trigger] post.escrow_balance(k) == pre.escrow_balance(k) by {
        assert(post.season(k) == pre.season(k));
        assert(post.positions_of(k) == pre.positions_of(k));
    }
    assert forall|k: Seq<char>| #[trigger] pre.season(k) is Some implies {
        &&& post.season(k) is Some
        &&& terms_kept(pre.season(k)->Some_0, post.season(k)->Some_0)
        &&& status_may_follow(pre.season(k)->Some_0.status, post.season(k)->Some_0.status)
    } by {
        assert(post.season(k) == pre.season(k));
    }
}

/// Saving and loading gives the ledger back: the records of a well-formed
/// ledger are valid (so `from_records` accepts them), and a ledger loaded
/// from them, under the same administrator, is well formed and agrees with
/// the saved one on every season and position.
pub proof fn lemma_save_load_roundtrip(saved: CafeTokenize, loaded: CafeTokenize)
    requires
        saved.wf(),
        loaded.admin_id() == saved.admin_id(),
        loaded.records() == saved.records(),
    ensures
        records_valid(saved.records()),
        loaded.wf(),
        forall|id: Seq<char>|
            #[trigger] loaded.season(id) == saved.season(id) && loaded.positions_of(id) == saved.positions_of(id),
{
    saved.lemma_records_valid();
    CafeTokenize::lemma_same_records(saved, loaded);
}

/// Each operation on a season decides by that season alone: two ledgers
/// with the same administrator, the same season `id` and the same positions
/// in it give every operation on `id` the same result. So a host may load
/// just the season a call names.
pub proof fn lemma_decisions_are_local(a: CafeTokenize, b: CafeTokenize, id: Seq<char>)
    requires
        a.admin_id() == b.admin_id(),
        a.season(id) == b.season(id),
        a.positions_of(id) == b.positions_of(id),
    ensures
        forall|t: i128, p: i128, y: i128| #[trigger] a.create_season_result(id, t, p, y) == b.create_season_result(id, t, p, y),
        forall|w: Seq<char>, n: i128| #[trigger] a.buy_shares_result(id, w, n) == b.buy_shares_result(id, w, n),
        forall|c: Seq<char>| #[trigger] a.release_capital_result(id, c) == b.release_capital_result(id, c),
        forall|n: i128| #[trigger] a.settle_payout_result(id, n) == b.settle_payout_result(id, n),
        forall|w: Seq<char>| #[trigger] a.claim_payout_result(id, w) == b.claim_payout_result(id, w),
        forall|c: Seq<char>| #[trigger] a.cancel_season_result(id, c) == b.cancel_season_result(id, c),
        forall|w: Seq<char>| #[trigger] a.refund_investment_result(id, w) == b.refund_investment_result(id, w),
        a.farmer_of(id) == b.farmer_of(id),
{
}

} // verus!
