//! What each operation does, stated from the contract's rules and proved
//! from the operations' contracts: when it goes through, which error each
//! refusal gives, what it moves and how it leaves the season and the
//! position. Each law is stated over the
//! ledger's observers and plain arithmetic, for all inputs.

use vstd::prelude::*;

use crate::laws::lemma_position_replaced;
use crate::ledger::{has_position_in, position_index, position_ok, season_ok, CafeTokenize};
use crate::runs::lemma_position_pushed;
use crate::sums::{invested_of, lemma_term_le_sum, shares_of};
use crate::types::{CoffeeError, Flow, HarvestStatus, Outcome, Transfer};

verus! {

/// What a well-formed ledger shows of a position: it belongs to an existing
/// season, is in bounds for it, and holds no more shares than were sold nor
/// more money than was raised.
proof fn lemma_position_facts(l: CafeTokenize, id: Seq<char>, who: Seq<char>)
    requires
        l.wf(),
        l.position(id, who) is Some,
    ensures
        l.season(id) is Some,
        position_ok(l.position(id, who)->Some_0, l.season(id)->Some_0),
        l.position(id, who)->Some_0.investor@ == who,
        l.position(id, who)->Some_0.shares <= l.season(id)->Some_0.shares_sold,
        l.position(id, who)->Some_0.invested_amount <= l.season(id)->Some_0.raised_amount,
        l.positions_of(id)[position_index(l.positions_of(id), who)] == l.position(id, who)->Some_0,
        0 <= position_index(l.positions_of(id), who) < l.positions_of(id).len(),
{
    l.lemma_season_invariant(id);
    let ps = l.positions_of(id);
    assert(has_position_in(ps, who));
    let k = position_index(ps, who);
    assert(ps[k].investor@ == who);
    let s = l.season(id)->Some_0;
    assert(position_ok(ps[k], s));
    assert forall|j: int| 0 <= j < ps.len() implies shares_of()(#[trigger] ps[j]) >= 0 && invested_of()(ps[j]) >= 0 by {
        assert(position_ok(ps[j], s));
    }
    lemma_term_le_sum(ps, k, shares_of());
    lemma_term_le_sum(ps, k, invested_of());
}

/// Opening a season: it asks for the farmer's authorization, goes through
/// exactly when the shares, the price and the expected yield are positive
/// and no season has the id, and then stores an open season of the given
/// terms with nothing sold, nothing raised, no pool and no positions.
pub proof fn lemma_create_season_rule(
    pre: CafeTokenize,
    season_id: String,
    farmer: String,
    coffee_type: String,
    region: String,
    total_shares: i128,
    price_per_share: i128,
    asset: String,
    expected_yield_kg: i128,
    harvest_date: i64,
    post: CafeTokenize,
    out: Outcome<()>,
)
    requires
        pre.wf(),
        CafeTokenize::create_season_step(
            pre,
            season_id,
            farmer,
            coffee_type,
            region,
            total_shares,
            price_per_share,
            asset,
            expected_yield_kg,
            harvest_date,
            post,
            out,
        ),
    ensures
        out.signer == Some(farmer),
        out.result is Ok <==> (total_shares > 0 && price_per_share > 0 && expected_yield_kg > 0 && pre.season(
            season_id@,
        ) is None),
        out.result is Err ==> post == pre,
        !(total_shares > 0 && price_per_share > 0 && expected_yield_kg > 0) ==> out.result == Err::<(), CoffeeError>(
            CoffeeError::InvalidAmount,
        ),
        total_shares > 0 && price_per_share > 0 && expected_yield_kg > 0 && pre.season(season_id@) is Some
            ==> out.result == Err::<(), CoffeeError>(CoffeeError::AlreadyExists),
        out.result is Ok ==> ({
            let s = post.season(season_id@)->Some_0;
            &&& post.season(season_id@) is Some
            &&& s.status == HarvestStatus::Open
            &&& s.farmer == farmer
            &&& s.asset == asset
            &&& s.total_shares == total_shares
            &&& s.price_per_share == price_per_share
            &&& s.shares_sold == 0
            &&& s.raised_amount == 0
            &&& s.payout_pool == 0
            &&& post.positions_of(season_id@).len() == 0
        }),
{
}

/// Buying: it asks for the investor's authorization and goes through
/// exactly when the number of shares is positive, the season exists and is
/// open, the shares fit in what is left to sell, and the capital after the
/// purchase fits in an `i128`. It then takes `shares * price_per_share` from
/// the investor into escrow, and adds the shares and that price to the
/// season and to the investor's position (which it opens where there is
/// none).
pub proof fn lemma_buy_shares_rule(
    pre: CafeTokenize,
    season_id: String,
    investor: String,
    shares: i128,
    post: CafeTokenize,
    out: Outcome<Transfer>,
)
    requires
        pre.wf(),
        CafeTokenize::buy_shares_step(pre, season_id, investor, shares, post, out),
    ensures
        out.signer == Some(investor),
        out.result is Ok <==> ({
            let s = pre.season(season_id@)->Some_0;
            &&& shares > 0
            &&& pre.season(season_id@) is Some
            &&& s.status == HarvestStatus::Open
            &&& shares <= s.total_shares - s.shares_sold
            &&& (s.shares_sold + shares) * s.price_per_share <= i128::MAX
        }),
        out.result is Err ==> post == pre,
        shares <= 0 ==> out.result == Err::<Transfer, CoffeeError>(CoffeeError::InvalidAmount),
        shares > 0 && pre.season(season_id@) is None ==> out.result == Err::<Transfer, CoffeeError>(
            CoffeeError::NotFound,
        ),
        shares > 0 && pre.season(season_id@) is Some && pre.season(season_id@)->Some_0.status
            != HarvestStatus::Open ==> out.result == Err::<Transfer, CoffeeError>(CoffeeError::InvalidState),
        ({
            let s = pre.season(season_id@)->Some_0;
            &&& shares > 0
            &&& pre.season(season_id@) is Some
            &&& s.status == HarvestStatus::Open
            &&& shares > s.total_shares - s.shares_sold
        }) ==> out.result == Err::<Transfer, CoffeeError>(CoffeeError::Oversubscribed),
        ({
            let s = pre.season(season_id@)->Some_0;
            &&& shares > 0
            &&& pre.season(season_id@) is Some
            &&& s.status == HarvestStatus::Open
            &&& shares <= s.total_shares - s.shares_sold
            &&& (s.shares_sold + shares) * s.price_per_share > i128::MAX
        }) ==> out.result == Err::<Transfer, CoffeeError>(CoffeeError::Overflow),
        out.result is Ok ==> ({
            let s = pre.season(season_id@)->Some_0;
            let t = out.result->Ok_0;
            let held: int = if pre.position(season_id@, investor@) is Some {
                pre.position(season_id@, investor@)->Some_0.shares as int
            } else {
                0
            };
            let paid: int = if pre.position(season_id@, investor@) is Some {
                pre.position(season_id@, investor@)->Some_0.invested_amount as int
            } else {
                0
            };
            let q = post.position(season_id@, investor@)->Some_0;
            &&& t.flow == Flow::IntoEscrow
            &&& t.account == investor
            &&& t.asset == s.asset
            &&& t.amount == shares * s.price_per_share
            &&& post.season(season_id@) is Some
            &&& post.season(season_id@)->Some_0.status == HarvestStatus::Open
            &&& post.season(season_id@)->Some_0.shares_sold == s.shares_sold + shares
            &&& post.season(season_id@)->Some_0.raised_amount == s.raised_amount + shares * s.price_per_share
            &&& post.position(season_id@, investor@) is Some
            &&& q.shares == held + shares
            &&& q.invested_amount == paid + shares * s.price_per_share
            &&& q.claimed_amount == 0
            &&& !q.refunded
        }),
{
    let id = season_id@;
    let w = investor@;
    pre.lemma_season_invariant(id);
    if shares > 0 && pre.season(id) is Some {
        let s = pre.season(id)->Some_0;
        assert(season_ok(s));
        let sold = s.shares_sold as int;
        let price = s.price_per_share as int;
        let n = shares as int;
        assert((sold + n) * price == sold * price + n * price) by (nonlinear_arith);
        assert(n * price > 0) by (nonlinear_arith)
            requires
                n > 0,
                price > 0,
        ;
        assert(sold * price >= 0) by (nonlinear_arith)
            requires
                sold >= 0,
                price > 0,
        ;
        if pre.position(id, w) is Some {
            lemma_position_facts(pre, id, w);
        }
        if let Ok(amount) = pre.buy_shares_result(id, w, shares) {
            let ps = pre.positions_of(id);
            let prev = pre.position(id, w);
            let np = CafeTokenize::bought_position(prev, investor, shares, amount);
            match prev {
                Some(p) => {
                    lemma_position_replaced(ps, w, np);
                },
                None => {
                    lemma_position_pushed(ps, np);
                },
            }
        }
    }
}

/// Releasing the capital: once the season is found it asks for the
/// caller's authorization, and goes through exactly when the season is open
/// with some capital raised and the caller is its farmer or the
/// administrator, whatever share of the season was sold. It then moves the
/// whole capital raised out of escrow to the farmer and makes the season
/// active.
pub proof fn lemma_release_capital_rule(
    pre: CafeTokenize,
    season_id: String,
    caller: String,
    post: CafeTokenize,
    out: Outcome<Transfer>,
)
    requires
        pre.wf(),
        CafeTokenize::release_capital_step(pre, season_id, caller, post, out),
    ensures
        pre.season(season_id@) is Some ==> out.signer == Some(caller),
        out.result is Ok <==> ({
            let s = pre.season(season_id@)->Some_0;
            &&& pre.season(season_id@) is Some
            &&& s.status == HarvestStatus::Open
            &&& s.raised_amount > 0
            &&& (caller@ == s.farmer@ || caller@ == pre.admin_id())
        }),
        out.result is Err ==> post == pre,
        pre.season(season_id@) is None ==> out.result == Err::<Transfer, CoffeeError>(CoffeeError::NotFound),
        pre.season(season_id@) is Some && (pre.season(season_id@)->Some_0.status != HarvestStatus::Open
            || pre.season(season_id@)->Some_0.raised_amount <= 0) ==> out.result == Err::<Transfer, CoffeeError>(
            CoffeeError::InvalidState,
        ),
        ({
            let s = pre.season(season_id@)->Some_0;
            &&& pre.season(season_id@) is Some
            &&& s.status == HarvestStatus::Open
            &&& s.raised_amount > 0
            &&& caller@ != s.farmer@
            &&& caller@ != pre.admin_id()
        }) ==> out.result == Err::<Transfer, CoffeeError>(CoffeeError::NotAuthorized),
        out.result is Ok ==> ({
            let s = pre.season(season_id@)->Some_0;
            let t = out.result->Ok_0;
            &&& t.flow == Flow::OutOfEscrow
            &&& t.account == s.farmer
            &&& t.asset == s.asset
            &&& t.amount == s.raised_amount
            &&& post.season(season_id@) is Some
            &&& post.season(season_id@)->Some_0.status == HarvestStatus::Active
            &&& post.season(season_id@)->Some_0.raised_amount == s.raised_amount
            &&& post.season(season_id@)->Some_0.shares_sold == s.shares_sold
            &&& post.positions_of(season_id@) == pre.positions_of(season_id@)
        }),
{
}

/// Settling: once the amount is positive and the season found, it asks for
/// the farmer's authorization, and goes through exactly when the season is
/// active with shares sold, whatever the amount is against the capital. It
/// then moves the amount from the farmer into escrow and settles the season
/// with the amount as its pool.
pub proof fn lemma_settle_payout_rule(
    pre: CafeTokenize,
    season_id: String,
    payout_amount: i128,
    post: CafeTokenize,
    out: Outcome<Transfer>,
)
    requires
        pre.wf(),
        CafeTokenize::settle_payout_step(pre, season_id, payout_amount, post, out),
    ensures
        payout_amount > 0 && pre.season(season_id@) is Some ==> out.signer == Some(
            pre.season(season_id@)->Some_0.farmer,
        ),
        out.result is Ok <==> ({
            let s = pre.season(season_id@)->Some_0;
            &&& payout_amount > 0
            &&& pre.season(season_id@) is Some
            &&& s.status == HarvestStatus::Active
            &&& s.shares_sold > 0
        }),
        out.result is Err ==> post == pre,
        payout_amount <= 0 ==> out.result == Err::<Transfer, CoffeeError>(CoffeeError::InvalidAmount),
        payout_amount > 0 && pre.season(season_id@) is None ==> out.result == Err::<Transfer, CoffeeError>(
            CoffeeError::NotFound,
        ),
        payout_amount > 0 && pre.season(season_id@) is Some && (pre.season(season_id@)->Some_0.status
            != HarvestStatus::Active || pre.season(season_id@)->Some_0.shares_sold <= 0) ==> out.result == Err::<
            Transfer,
            CoffeeError,
        >(CoffeeError::InvalidState),
        out.result is Ok ==> ({
            let s = pre.season(season_id@)->Some_0;
            let t = out.result->Ok_0;
            &&& t.flow == Flow::IntoEscrow
            &&& t.account == s.farmer
            &&& t.asset == s.asset
            &&& t.amount == payout_amount
            &&& post.season(season_id@) is Some
            &&& post.season(season_id@)->Some_0.status == HarvestStatus::Settled
            &&& post.season(season_id@)->Some_0.payout_pool == payout_amount
            &&& post.season(season_id@)->Some_0.shares_sold == s.shares_sold
            &&& post.positions_of(season_id@) == pre.positions_of(season_id@)
        }),
{
}

/// Claiming: it asks for the investor's authorization, and goes through
/// exactly when the season is settled, the investor holds a position that
/// was not refunded, `payout_pool * shares` fits in an `i128` and the
/// investor has claimed less than `payout_pool * shares / shares_sold`
/// (rounded down), whatever share of the season was sold. It then pays the
/// investor the difference out of escrow, so that they have claimed exactly
/// that entitlement.
pub proof fn lemma_claim_payout_rule(
    pre: CafeTokenize,
    season_id: String,
    investor: String,
    post: CafeTokenize,
    out: Outcome<Transfer>,
)
    requires
        pre.wf(),
        CafeTokenize::claim_payout_step(pre, season_id, investor, post, out),
    ensures
        out.signer == Some(investor),
        out.result is Ok <==> ({
            let s = pre.season(season_id@)->Some_0;
            let p = pre.position(season_id@, investor@)->Some_0;
            &&& pre.season(season_id@) is Some
            &&& s.status == HarvestStatus::Settled
            &&& pre.position(season_id@, investor@) is Some
            &&& !p.refunded
            &&& s.payout_pool * p.shares <= i128::MAX
            &&& p.claimed_amount < (s.payout_pool * p.shares) / (s.shares_sold as int)
        }),
        out.result is Err ==> post == pre,
        pre.season(season_id@) is None ==> out.result == Err::<Transfer, CoffeeError>(CoffeeError::NotFound),
        pre.season(season_id@) is Some && pre.season(season_id@)->Some_0.status != HarvestStatus::Settled
            ==> out.result == Err::<Transfer, CoffeeError>(CoffeeError::InvalidState),
        pre.season(season_id@) is Some && pre.season(season_id@)->Some_0.status == HarvestStatus::Settled
            && pre.position(season_id@, investor@) is None ==> out.result == Err::<Transfer, CoffeeError>(
            CoffeeError::NoPosition,
        ),
        ({
            let s = pre.season(season_id@)->Some_0;
            let p = pre.position(season_id@, investor@)->Some_0;
            &&& pre.season(season_id@) is Some
            &&& s.status == HarvestStatus::Settled
            &&& pre.position(season_id@, investor@) is Some
            &&& p.refunded
        }) ==> out.result == Err::<Transfer, CoffeeError>(CoffeeError::InvalidState),
        ({
            let s = pre.season(season_id@)->Some_0;
            let p = pre.position(season_id@, investor@)->Some_0;
            &&& pre.season(season_id@) is Some
            &&& s.status == HarvestStatus::Settled
            &&& pre.position(season_id@, investor@) is Some
            &&& !p.refunded
            &&& s.payout_pool * p.shares > i128::MAX
        }) ==> out.result == Err::<Transfer, CoffeeError>(CoffeeError::Overflow),
        ({
            let s = pre.season(season_id@)->Some_0;
            let p = pre.position(season_id@, investor@)->Some_0;
            &&& pre.season(season_id@) is Some
            &&& s.status == HarvestStatus::Settled
            &&& pre.position(season_id@, investor@) is Some
            &&& !p.refunded
            &&& s.payout_pool * p.shares <= i128::MAX
            &&& p.claimed_amount >= (s.payout_pool * p.shares) / (s.shares_sold as int)
        }) ==> out.result == Err::<Transfer, CoffeeError>(CoffeeError::NothingToClaim),
        out.result is Ok ==> ({
            let s = pre.season(season_id@)->Some_0;
            let p = pre.position(season_id@, investor@)->Some_0;
            let t = out.result->Ok_0;
            let q = post.position(season_id@, investor@)->Some_0;
            &&& t.flow == Flow::OutOfEscrow
            &&& t.account == investor
            &&& t.asset == s.asset
            &&& t.amount == (s.payout_pool * p.shares) / (s.shares_sold as int) - p.claimed_amount
            &&& post.season(season_id@) == pre.season(season_id@)
            &&& post.position(season_id@, investor@) is Some
            &&& q.claimed_amount == (s.payout_pool * p.shares) / (s.shares_sold as int)
            &&& q.shares == p.shares
            &&& q.invested_amount == p.invested_amount
        }),
{
    let id = season_id@;
    let w = investor@;
    pre.lemma_season_invariant(id);
    if pre.season(id) is Some && pre.position(id, w) is Some {
        lemma_position_facts(pre, id, w);
        let s = pre.season(id)->Some_0;
        let p = pre.position(id, w)->Some_0;
        if s.status == HarvestStatus::Settled {
            let pool = s.payout_pool as int;
            let sh = p.shares as int;
            let sold = s.shares_sold as int;
            assert(pool * sh > 0) by (nonlinear_arith)
                requires
                    pool > 0,
                    sh > 0,
            ;
            assert((pool * sh) / sold >= 0) by (nonlinear_arith)
                requires
                    pool * sh > 0,
                    sold > 0,
            ;
            assert((pool * sh) / sold <= pool * sh) by (nonlinear_arith)
                requires
                    pool * sh > 0,
                    sold > 0,
            ;
        }
        if let Ok(amount) = pre.claim_payout_result(id, w) {
            let ps = pre.positions_of(id);
            let np = crate::types::InvestorPosition { claimed_amount: (p.claimed_amount + amount) as i128, ..p };
            lemma_position_replaced(ps, w, np);
        }
    }
}

/// Cancelling: it asks for the caller's authorization, and goes through
/// exactly when the season exists and is open and the caller is its farmer
/// or the administrator, however many shares were sold. It then makes the
/// season cancelled and moves no tokens.
pub proof fn lemma_cancel_season_rule(
    pre: CafeTokenize,
    season_id: String,
    caller: String,
    post: CafeTokenize,
    out: Outcome<()>,
)
    requires
        pre.wf(),
        CafeTokenize::cancel_season_step(pre, season_id, caller, post, out),
    ensures
        out.signer == Some(caller),
        out.result is Ok <==> ({
            let s = pre.season(season_id@)->Some_0;
            &&& pre.season(season_id@) is Some
            &&& s.status == HarvestStatus::Open
            &&& (caller@ == s.farmer@ || caller@ == pre.admin_id())
        }),
        pre.season(season_id@) is None ==> out.result == Err::<(), CoffeeError>(CoffeeError::NotFound),
        pre.season(season_id@) is Some && pre.season(season_id@)->Some_0.status != HarvestStatus::Open
            ==> out.result == Err::<(), CoffeeError>(CoffeeError::InvalidState),
        ({
            let s = pre.season(season_id@)->Some_0;
            &&& pre.season(season_id@) is Some
            &&& s.status == HarvestStatus::Open
            &&& caller@ != s.farmer@
            &&& caller@ != pre.admin_id()
        }) ==> out.result == Err::<(), CoffeeError>(CoffeeError::NotAuthorized),
        out.result is Err ==> post == pre,
        out.result is Ok ==> ({
            let s = pre.season(season_id@)->Some_0;
            &&& post.season(season_id@) is Some
            &&& post.season(season_id@)->Some_0.status == HarvestStatus::Cancelled
            &&& post.season(season_id@)->Some_0.raised_amount == s.raised_amount
            &&& post.season(season_id@)->Some_0.shares_sold == s.shares_sold
            &&& post.positions_of(season_id@) == pre.positions_of(season_id@)
        }),
{
}

/// Refunding: it asks for the investor's authorization, and goes through
/// exactly when the season is cancelled and the investor holds a position
/// not yet refunded. It then pays the investor back all the money the
/// position paid in, out of escrow, and marks the position refunded.
pub proof fn lemma_refund_investment_rule(
    pre: CafeTokenize,
    season_id: String,
    investor: String,
    post: CafeTokenize,
    out: Outcome<Transfer>,
)
    requires
        pre.wf(),
        CafeTokenize::refund_investment_step(pre, season_id, investor, post, out),
    ensures
        out.signer == Some(investor),
        out.result is Ok <==> ({
            let s = pre.season(season_id@)->Some_0;
            let p = pre.position(season_id@, investor@)->Some_0;
            &&& pre.season(season_id@) is Some
            &&& s.status == HarvestStatus::Cancelled
            &&& pre.position(season_id@, investor@) is Some
            &&& !p.refunded
        }),
        out.result is Err ==> post == pre,
        pre.season(season_id@) is None ==> out.result == Err::<Transfer, CoffeeError>(CoffeeError::NotFound),
        pre.season(season_id@) is Some && pre.season(season_id@)->Some_0.status != HarvestStatus::Cancelled
            ==> out.result == Err::<Transfer, CoffeeError>(CoffeeError::InvalidState),
        pre.season(season_id@) is Some && pre.season(season_id@)->Some_0.status == HarvestStatus::Cancelled
            && pre.position(season_id@, investor@) is None ==> out.result == Err::<Transfer, CoffeeError>(
            CoffeeError::NoPosition,
        ),
        pre.season(season_id@) is Some && pre.season(season_id@)->Some_0.status == HarvestStatus::Cancelled
            && pre.position(season_id@, investor@) is Some && pre.position(season_id@, investor@)->Some_0.refunded
            ==> out.result == Err::<Transfer, CoffeeError>(CoffeeError::AlreadyRefunded),
        out.result is Ok ==> ({
            let s = pre.season(season_id@)->Some_0;
            let p = pre.position(season_id@, investor@)->Some_0;
            let t = out.result->Ok_0;
            let q = post.position(season_id@, investor@)->Some_0;
            &&& t.flow == Flow::OutOfEscrow
            &&& t.account == investor
            &&& t.asset == s.asset
            &&& t.amount == p.invested_amount
            &&& post.season(season_id@) == pre.season(season_id@)
            &&& post.position(season_id@, investor@) is Some
            &&& q.refunded
            &&& q.invested_amount == p.invested_amount
        }),
{
    let id = season_id@;
    let w = investor@;
    pre.lemma_season_invariant(id);
    if pre.season(id) is Some && pre.position(id, w) is Some {
        lemma_position_facts(pre, id, w);
        let p = pre.position(id, w)->Some_0;
        if pre.refund_investment_result(id, w) is Ok {
            let ps = pre.positions_of(id);
            let np = crate::types::InvestorPosition { refunded: true, ..p };
            lemma_position_replaced(ps, w, np);
        }
    }
}

/// Handing over the administration: it goes through exactly when the
/// account handing it over is the administrator, asks for that account's
/// authorization, and makes the new account the administrator.
pub proof fn lemma_transfer_admin_rule(
    pre: CafeTokenize,
    current_admin: String,
    new_admin: String,
    post: CafeTokenize,
    out: Outcome<()>,
)
    requires
        pre.wf(),
        CafeTokenize::transfer_admin_step(pre, current_admin, new_admin, post, out),
    ensures
        out.result is Ok <==> current_admin@ == pre.admin_id(),
        out.result is Err ==> post == pre && out.result == Err::<(), CoffeeError>(CoffeeError::NotAuthorized),
        out.result is Ok ==> out.signer == Some(current_admin) && post.admin_id() == new_admin@,
{
}

} // verus!
