//! Laws over any history of operations: what reads give back after the
//! writes before them, when a season exists, and when a position does.

use vstd::prelude::*;

use crate::laws::lemma_position_replaced;
use crate::ledger::{position_index, CafeTokenize};
use crate::runs::{lemma_position_other_pushed, lemma_position_other_updated, lemma_position_pushed};
use crate::types::{InvestorPosition, Outcome, Transfer};

verus! {

/// A call of one of the ledger's operations, with its arguments.
pub enum Call {
    CreateSeason {
        season_id: String,
        farmer: String,
        coffee_type: String,
        region: String,
        total_shares: i128,
        price_per_share: i128,
        asset: String,
        expected_yield_kg: i128,
        harvest_date: i64,
    },
    BuyShares { season_id: String, investor: String, shares: i128 },
    ReleaseCapital { season_id: String, caller: String },
    SettlePayout { season_id: String, payout_amount: i128 },
    ClaimPayout { season_id: String, investor: String },
    CancelSeason { season_id: String, caller: String },
    RefundInvestment { season_id: String, investor: String },
    TransferAdmin { current_admin: String, new_admin: String },
}

/// What a call answered: an outcome without a transfer, or with one.
pub enum Reply {
    Done(Outcome<()>),
    Moved(Outcome<Transfer>),
}

/// `post` and `reply` are what `call` made of `pre`, by the operation's
/// own contract.
pub open spec fn call_step(pre: CafeTokenize, call: Call, post: CafeTokenize, reply: Reply) -> bool {
    match (call, reply) {
        (
            Call::CreateSeason {
                season_id,
                farmer,
                coffee_type,
                region,
                total_shares,
                price_per_share,
                asset,
                expected_yield_kg,
                harvest_date,
            },
            Reply::Done(out),
        ) => CafeTokenize::create_season_step(
            pre,
            season_id,
            farmer,
            coffee_type,
            region,
            total_shares,
            price_per_share,
            asset,
            expected_yield_kg,
            harvest_date,
            post,
            out,
        ),
        (Call::BuyShares { season_id, investor, shares }, Reply::Moved(out)) => CafeTokenize::buy_shares_step(
            pre,
            season_id,
            investor,
            shares,
            post,
            out,
        ),
        (Call::ReleaseCapital { season_id, caller }, Reply::Moved(out)) => CafeTokenize::release_capital_step(
            pre,
            season_id,
            caller,
            post,
            out,
        ),
        (Call::SettlePayout { season_id, payout_amount }, Reply::Moved(out)) => CafeTokenize::settle_payout_step(
            pre,
            season_id,
            payout_amount,
            post,
            out,
        ),
        (Call::ClaimPayout { season_id, investor }, Reply::Moved(out)) => CafeTokenize::claim_payout_step(
            pre,
            season_id,
            investor,
            post,
            out,
        ),
        (Call::CancelSeason { season_id, caller }, Reply::Done(out)) => CafeTokenize::cancel_season_step(
            pre,
            season_id,
            caller,
            post,
            out,
        ),
        (Call::RefundInvestment { season_id, investor }, Reply::Moved(out)) => CafeTokenize::refund_investment_step(
            pre,
            season_id,
            investor,
            post,
            out,
        ),
        (Call::TransferAdmin { current_admin, new_admin }, Reply::Done(out)) => CafeTokenize::transfer_admin_step(
            pre,
            current_admin,
            new_admin,
            post,
            out,
        ),
        _ => false,
    }
}

/// Whether the reply reports success.
pub open spec fn succeeded(reply: Reply) -> bool {
    match reply {
        Reply::Done(out) => out.result is Ok,
        Reply::Moved(out) => out.result is Ok,
    }
}

/// The season that a call is about, if any.
pub open spec fn season_of_call(call: Call) -> Option<Seq<char>> {
    match call {
        Call::CreateSeason { season_id, .. } => Some(season_id@),
        Call::BuyShares { season_id, .. } => Some(season_id@),
        Call::ReleaseCapital { season_id, .. } => Some(season_id@),
        Call::SettlePayout { season_id, .. } => Some(season_id@),
        Call::ClaimPayout { season_id, .. } => Some(season_id@),
        Call::CancelSeason { season_id, .. } => Some(season_id@),
        Call::RefundInvestment { season_id, .. } => Some(season_id@),
        Call::TransferAdmin { .. } => None,
    }
}

/// Whether the call succeeded on season `k` (and so may have written it).
pub open spec fn writes(call: Call, reply: Reply, k: Seq<char>) -> bool {
    season_of_call(call) == Some(k) && succeeded(reply)
}

/// Whether the call created season `k`.
pub open spec fn creates(call: Call, reply: Reply, k: Seq<char>) -> bool {
    &&& call is CreateSeason
    &&& season_of_call(call) == Some(k)
    &&& succeeded(reply)
}

/// Whether the call was a purchase by `who` in season `k` that went through.
pub open spec fn buys(call: Call, reply: Reply, k: Seq<char>, who: Seq<char>) -> bool {
    match call {
        Call::BuyShares { season_id, investor, .. } => season_id@ == k && investor@ == who && succeeded(reply),
        _ => false,
    }
}

/// `states` are well-formed ledgers, each reached from the one before by
/// `calls[i]`, answered with `replies[i]`.
pub open spec fn history(states: Seq<CafeTokenize>, calls: Seq<Call>, replies: Seq<Reply>) -> bool {
    &&& states.len() == calls.len() + 1
    &&& replies.len() == calls.len()
    &&& forall|i: int| 0 <= i < states.len() ==> (#[trigger] states[i]).wf()
    &&& forall|i: int| 0 <= i < calls.len() ==> call_step(states[i], #[trigger] calls[i], states[i + 1], replies[i])
}

/// What one call does to season `k` and to `who`'s position in it: a call
/// that did not succeed on `k` leaves both; a season exists after the call
/// exactly where it did before or the call created it; `who` holds a
/// position after it exactly where they did before or the call was their
/// purchase in `k`.
pub proof fn lemma_call_frame(pre: CafeTokenize, call: Call, post: CafeTokenize, reply: Reply, k: Seq<char>, who: Seq<char>)
    requires
        pre.wf(),
        call_step(pre, call, post, reply),
    ensures
        !writes(call, reply, k) ==> post.season(k) == pre.season(k) && post.positions_of(k) == pre.positions_of(k),
        post.season(k) is Some <==> pre.season(k) is Some || creates(call, reply, k),
        post.position(k, who) is Some <==> pre.position(k, who) is Some || buys(call, reply, k, who),
{
    pre.lemma_season_invariant(k);
    match (call, reply) {
        (Call::CreateSeason { season_id, .. }, Reply::Done(out)) => {
            if out.result is Ok && season_id@ != k {
                assert(post.season(k) == pre.season(k));
            }
        },
        (Call::BuyShares { season_id, investor, shares }, Reply::Moved(out)) => {
            if let Ok(amount) = pre.buy_shares_result(season_id@, investor@, shares) {
                if season_id@ == k {
                    let ps = pre.positions_of(k);
                    let prev = pre.position(k, investor@);
                    let np = CafeTokenize::bought_position(prev, investor, shares, amount);
                    match prev {
                        Some(p) => {
                            let i = position_index(ps, investor@);
                            assert(ps[i] == p);
                            if who == investor@ {
                                lemma_position_replaced(ps, investor@, np);
                            } else {
                                lemma_position_other_updated(ps, i, np, who);
                            }
                        },
                        None => {
                            if who == investor@ {
                                lemma_position_pushed(ps, np);
                            } else {
                                lemma_position_other_pushed(ps, np, who);
                            }
                        },
                    }
                } else {
                    assert(post.season(k) == pre.season(k));
                }
            }
        },
        (Call::ReleaseCapital { season_id, caller }, Reply::Moved(out)) => {
            if out.result is Ok && season_id@ != k {
                assert(post.season(k) == pre.season(k));
            }
        },
        (Call::SettlePayout { season_id, payout_amount }, Reply::Moved(out)) => {
            if out.result is Ok && season_id@ != k {
                assert(post.season(k) == pre.season(k));
            }
        },
        (Call::ClaimPayout { season_id, investor }, Reply::Moved(out)) => {
            if let Ok(amount) = pre.claim_payout_result(season_id@, investor@) {
                if season_id@ == k {
                    let ps = pre.positions_of(k);
                    let p = pre.position(k, investor@)->Some_0;
                    let i = position_index(ps, investor@);
                    assert(ps[i] == p);
                    let np = InvestorPosition { claimed_amount: (p.claimed_amount + amount) as i128, ..p };
                    if who == investor@ {
                        lemma_position_replaced(ps, investor@, np);
                    } else {
                        lemma_position_other_updated(ps, i, np, who);
                    }
                } else {
                    assert(post.season(k) == pre.season(k));
                }
            }
        },
        (Call::CancelSeason { season_id, caller }, Reply::Done(out)) => {
            if out.result is Ok && season_id@ != k {
                assert(post.season(k) == pre.season(k));
            }
        },
        (Call::RefundInvestment { season_id, investor }, Reply::Moved(out)) => {
            if let Ok(amount) = pre.refund_investment_result(season_id@, investor@) {
                if season_id@ == k {
                    let ps = pre.positions_of(k);
                    let p = pre.position(k, investor@)->Some_0;
                    let i = position_index(ps, investor@);
                    assert(ps[i] == p);
                    let np = InvestorPosition { refunded: true, ..p };
                    if who == investor@ {
                        lemma_position_replaced(ps, investor@, np);
                    } else {
                        lemma_position_other_updated(ps, i, np, who);
                    }
                } else {
                    assert(post.season(k) == pre.season(k));
                }
            }
        },
        (Call::TransferAdmin { current_admin, new_admin }, Reply::Done(out)) => {
            assert(post.season(k) == pre.season(k));
        },
        _ => {},
    }
}

/// The prefix of a history is a history.
proof fn lemma_history_prefix(states: Seq<CafeTokenize>, calls: Seq<Call>, replies: Seq<Reply>)
    requires
        history(states, calls, replies),
        calls.len() > 0,
    ensures
        history(states.drop_last(), calls.drop_last(), replies.drop_last()),
        call_step(states[calls.len() - 1], calls.last(), states.last(), replies.last()),
        states[calls.len() - 1].wf(),
{
    let n = calls.len() as int;
    let ps = states.drop_last();
    assert forall|i: int| 0 <= i < ps.len() implies (#[trigger] ps[i]).wf() by {
        assert(states[i].wf());
    }
    assert forall|i: int| 0 <= i < n - 1 implies call_step(
        ps[i],
        #[trigger] calls.drop_last()[i],
        ps[i + 1],
        replies.drop_last()[i],
    ) by {
        assert(calls.drop_last()[i] == calls[i]);
        assert(call_step(states[i], calls[i], states[i + 1], replies[i]));
    }
    assert(call_step(states[n - 1], calls[n - 1], states[n], replies[n - 1]));
    assert(states[n - 1].wf());
}

/// A read gives back the last write: where no call from position `j` of a
/// history on succeeded on season `k`, the season and its positions at the
/// end are as they were after call `j - 1` (as the state at `j` holds them).
pub proof fn lemma_read_after_write(states: Seq<CafeTokenize>, calls: Seq<Call>, replies: Seq<Reply>, k: Seq<char>, j: int)
    requires
        history(states, calls, replies),
        0 <= j <= calls.len(),
        forall|i: int| j <= i < calls.len() ==> !writes(#[trigger] calls[i], replies[i], k),
    ensures
        states.last().season(k) == states[j].season(k),
        states.last().positions_of(k) == states[j].positions_of(k),
    decreases calls.len(),
{
    let n = calls.len() as int;
    if n > j {
        lemma_history_prefix(states, calls, replies);
        assert forall|i: int| j <= i < n - 1 implies !writes(#[trigger] calls.drop_last()[i], replies.drop_last()[i], k) by {
            assert(calls.drop_last()[i] == calls[i]);
            assert(!writes(calls[i], replies[i], k));
        }
        lemma_read_after_write(states.drop_last(), calls.drop_last(), replies.drop_last(), k, j);
        assert(!writes(calls[n - 1], replies[n - 1], k));
        lemma_call_frame(states[n - 1], calls[n - 1], states[n], replies[n - 1], k, Seq::empty());
    }
}

/// A season exists at the end of a history that starts without it exactly
/// where one of the calls created it.
pub proof fn lemma_season_exists_iff_created(states: Seq<CafeTokenize>, calls: Seq<Call>, replies: Seq<Reply>, k: Seq<char>)
    requires
        history(states, calls, replies),
        states[0].season(k) is None,
    ensures
        states.last().season(k) is Some <==> exists|i: int| 0 <= i < calls.len() && #[trigger] creates(calls[i], replies[i], k),
    decreases calls.len(),
{
    let n = calls.len() as int;
    if n > 0 {
        lemma_history_prefix(states, calls, replies);
        lemma_season_exists_iff_created(states.drop_last(), calls.drop_last(), replies.drop_last(), k);
        lemma_call_frame(states[n - 1], calls[n - 1], states[n], replies[n - 1], k, Seq::empty());
        if exists|i: int| 0 <= i < n - 1 && #[trigger] creates(calls.drop_last()[i], replies.drop_last()[i], k) {
            let i = choose|i: int| 0 <= i < n - 1 && #[trigger] creates(calls.drop_last()[i], replies.drop_last()[i], k);
            assert(calls.drop_last()[i] == calls[i]);
            assert(creates(calls[i], replies[i], k));
        }
        if exists|i: int| 0 <= i < n && #[trigger] creates(calls[i], replies[i], k) {
            let i = choose|i: int| 0 <= i < n && #[trigger] creates(calls[i], replies[i], k);
            if i < n - 1 {
                assert(calls.drop_last()[i] == calls[i]);
                assert(creates(calls.drop_last()[i], replies.drop_last()[i], k));
            }
        }
    }
}

/// `who` holds a position in season `k` at the end of a history that starts
/// without one exactly where one of the calls was their purchase in `k` that
/// went through.
pub proof fn lemma_position_exists_iff_bought(
    states: Seq<CafeTokenize>,
    calls: Seq<Call>,
    replies: Seq<Reply>,
    k: Seq<char>,
    who: Seq<char>,
)
    requires
        history(states, calls, replies),
        states[0].position(k, who) is None,
    ensures
        states.last().position(k, who) is Some <==> exists|i: int|
            0 <= i < calls.len() && #[trigger] buys(calls[i], replies[i], k, who),
    decreases calls.len(),
{
    let n = calls.len() as int;
    if n > 0 {
        lemma_history_prefix(states, calls, replies);
        lemma_position_exists_iff_bought(states.drop_last(), calls.drop_last(), replies.drop_last(), k, who);
        lemma_call_frame(states[n - 1], calls[n - 1], states[n], replies[n - 1], k, who);
        if exists|i: int| 0 <= i < n - 1 && #[trigger] buys(calls.drop_last()[i], replies.drop_last()[i], k, who) {
            let i = choose|i: int| 0 <= i < n - 1 && #[trigger] buys(calls.drop_last()[i], replies.drop_last()[i], k, who);
            assert(calls.drop_last()[i] == calls[i]);
            assert(buys(calls[i], replies[i], k, who));
        }
        if exists|i: int| 0 <= i < n && #[trigger] buys(calls[i], replies[i], k, who) {
            let i = choose|i: int| 0 <= i < n && #[trigger] buys(calls[i], replies[i], k, who);
            if i < n - 1 {
                assert(calls.drop_last()[i] == calls[i]);
                assert(buys(calls.drop_last()[i], replies.drop_last()[i], k, who));
            }
        }
    }
}

} // verus!
