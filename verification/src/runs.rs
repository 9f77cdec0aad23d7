//! Laws over sequences of operations on one season: what the claims of a
//! run pay out, what its refunds pay back, and what its purchases pay in.

use vstd::prelude::*;

use crate::laws::{lemma_escrow_solvent, lemma_position_replaced, lemma_untouched_totals};
use crate::ledger::{
    entitlement, has_position_in, investors_unique, position_in, position_index, position_ok,
    CafeTokenize,
};
use crate::sums::{claimed_of, invested_of, lemma_sum_le, lemma_sum_update, refunded_of, sum_over};
use crate::types::{HarvestStatus, InvestorPosition, Outcome, Transfer};

verus! {

/// What the outcome `out` moved for account `who`: the amount of its
/// transfer where it succeeded with `who` as the account, else nothing.
pub open spec fn paid(out: Outcome<Transfer>, who: Seq<char>) -> int {
    match out.result {
        Ok(t) => if t.account@ == who {
            t.amount as int
        } else {
            0
        },
        Err(_) => 0,
    }
}

/// What the outcomes `outs` moved for account `who`, together.
pub open spec fn moved_for(outs: Seq<Outcome<Transfer>>, who: Seq<char>) -> int
    decreases outs.len(),
{
    if outs.len() == 0 {
        0
    } else {
        moved_for(outs.drop_last(), who) + paid(outs.last(), who)
    }
}

/// What the outcomes `outs` moved, together.
pub open spec fn moved_total(outs: Seq<Outcome<Transfer>>) -> int
    decreases outs.len(),
{
    if outs.len() == 0 {
        0
    } else {
        moved_total(outs.drop_last()) + match outs.last().result {
            Ok(t) => t.amount as int,
            Err(_) => 0,
        }
    }
}

/// What `who` has claimed in season `id` of `l`.
pub open spec fn claimed_by(l: CafeTokenize, id: Seq<char>, who: Seq<char>) -> int {
    match l.position(id, who) {
        Some(p) => p.claimed_amount as int,
        None => 0,
    }
}

/// What has been refunded to `who` in season `id` of `l`.
pub open spec fn refunded_to(l: CafeTokenize, id: Seq<char>, who: Seq<char>) -> int {
    match l.position(id, who) {
        Some(p) => if p.refunded {
            p.invested_amount as int
        } else {
            0
        },
        None => 0,
    }
}

/// What `who` has paid into season `id` of `l`.
pub open spec fn invested_by(l: CafeTokenize, id: Seq<char>, who: Seq<char>) -> int {
    match l.position(id, who) {
        Some(p) => p.invested_amount as int,
        None => 0,
    }
}

/// What `who` is entitled to from season `id` of `l`: their entitlement once
/// the season is settled, nothing before.
pub open spec fn entitled_to(l: CafeTokenize, id: Seq<char>, who: Seq<char>) -> int {
    match (l.season(id), l.position(id, who)) {
        (Some(s), Some(p)) => if s.status == HarvestStatus::Settled {
            entitlement(s, p.shares as int)
        } else {
            0
        },
        _ => 0,
    }
}

/// `states` are well-formed ledgers, each reached from the one before by a
/// claim of `investors[i]` on season `season_id` with outcome `outs[i]`.
pub open spec fn claim_run(
    states: Seq<CafeTokenize>,
    season_id: String,
    investors: Seq<String>,
    outs: Seq<Outcome<Transfer>>,
) -> bool {
    &&& states.len() == outs.len() + 1
    &&& investors.len() == outs.len()
    &&& forall|i: int| 0 <= i < states.len() ==> (#[trigger] states[i]).wf()
    &&& forall|i: int|
        0 <= i < outs.len() ==> CafeTokenize::claim_payout_step(
            states[i],
            season_id,
            investors[i],
            states[i + 1],
            #[trigger] outs[i],
        )
}

/// The same for refunds.
pub open spec fn refund_run(
    states: Seq<CafeTokenize>,
    season_id: String,
    investors: Seq<String>,
    outs: Seq<Outcome<Transfer>>,
) -> bool {
    &&& states.len() == outs.len() + 1
    &&& investors.len() == outs.len()
    &&& forall|i: int| 0 <= i < states.len() ==> (#[trigger] states[i]).wf()
    &&& forall|i: int|
        0 <= i < outs.len() ==> CafeTokenize::refund_investment_step(
            states[i],
            season_id,
            investors[i],
            states[i + 1],
            #[trigger] outs[i],
        )
}

/// The same for purchases of `shares[i]` shares.
pub open spec fn buy_run(
    states: Seq<CafeTokenize>,
    season_id: String,
    investors: Seq<String>,
    shares: Seq<i128>,
    outs: Seq<Outcome<Transfer>>,
) -> bool {
    &&& states.len() == outs.len() + 1
    &&& investors.len() == outs.len()
    &&& shares.len() == outs.len()
    &&& forall|i: int| 0 <= i < states.len() ==> (#[trigger] states[i]).wf()
    &&& forall|i: int|
        0 <= i < outs.len() ==> CafeTokenize::buy_shares_step(
            states[i],
            season_id,
            investors[i],
            shares[i],
            states[i + 1],
            #[trigger] outs[i],
        )
}

/// Replacing one investor's position leaves every other investor's.
pub(crate) proof fn lemma_position_other_updated(ps: Seq<InvestorPosition>, i: int, np: InvestorPosition, who: Seq<char>)
    requires
        investors_unique(ps),
        0 <= i < ps.len(),
        np.investor@ == ps[i].investor@,
        who != ps[i].investor@,
    ensures
        position_in(ps.update(i, np), who) == position_in(ps, who),
{
    let qs = ps.update(i, np);
    if has_position_in(ps, who) {
        let k = position_index(ps, who);
        assert(qs[k].investor@ == who);
        assert(has_position_in(qs, who));
        let k2 = position_index(qs, who);
        assert(qs[k2].investor@ == who);
        assert(ps[k2] == qs[k2]);
        assert(ps[k].investor@ == who);
    } else {
        if has_position_in(qs, who) {
            let k2 = position_index(qs, who);
            assert(qs[k2].investor@ == who);
            assert(ps[k2] == qs[k2]);
        }
    }
}

/// Appending a position of one investor leaves every other investor's.
pub(crate) proof fn lemma_position_other_pushed(ps: Seq<InvestorPosition>, np: InvestorPosition, who: Seq<char>)
    requires
        investors_unique(ps),
        np.investor@ != who,
    ensures
        position_in(ps.push(np), who) == position_in(ps, who),
{
    let qs = ps.push(np);
    if has_position_in(ps, who) {
        let k = position_index(ps, who);
        assert(qs[k].investor@ == who);
        assert(has_position_in(qs, who));
        let k2 = position_index(qs, who);
        assert(qs[k2].investor@ == who);
        assert(ps[k2] == qs[k2]);
        assert(ps[k].investor@ == who);
    } else {
        if has_position_in(qs, who) {
            let k2 = position_index(qs, who);
            assert(qs[k2].investor@ == who);
            assert(ps[k2] == qs[k2]);
        }
    }
}

/// Appending the position of an investor who had none gives it to them.
pub(crate) proof fn lemma_position_pushed(ps: Seq<InvestorPosition>, np: InvestorPosition)
    requires
        !has_position_in(ps, np.investor@),
    ensures
        position_in(ps.push(np), np.investor@) == Some(np),
{
    let qs = ps.push(np);
    let n = ps.len() as int;
    assert(qs[n].investor@ == np.investor@);
    assert(has_position_in(qs, np.investor@));
    let k = position_index(qs, np.investor@);
    assert(qs[k].investor@ == np.investor@);
    if k != n {
        assert(ps[k] == qs[k]);
    }
}

/// One claim adds what it paid `who` to what `who` has claimed, and what it
/// paid in all to the season's total claims; the season stays as it was.
proof fn lemma_claim_step(
    pre: CafeTokenize,
    season_id: String,
    investor: String,
    post: CafeTokenize,
    out: Outcome<Transfer>,
    who: Seq<char>,
)
    requires
        pre.wf(),
        CafeTokenize::claim_payout_step(pre, season_id, investor, post, out),
    ensures
        claimed_by(post, season_id@, who) == claimed_by(pre, season_id@, who) + paid(out, who),
        post.claimed_total(season_id@) == pre.claimed_total(season_id@) + match out.result {
            Ok(t) => t.amount as int,
            Err(_) => 0,
        },
        post.season(season_id@) == pre.season(season_id@),
{
    let id = season_id@;
    if let Ok(amount) = pre.claim_payout_result(id, investor@) {
        pre.lemma_season_invariant(id);
        let ps = pre.positions_of(id);
        let p = pre.position(id, investor@)->Some_0;
        let i = position_index(ps, investor@);
        assert(ps[i] == p);
        let np = InvestorPosition { claimed_amount: (p.claimed_amount + amount) as i128, ..p };
        lemma_sum_update(ps, i, np, claimed_of());
        if who == investor@ {
            lemma_position_replaced(ps, investor@, np);
        } else {
            lemma_position_other_updated(ps, i, np, who);
        }
    }
}

/// One refund adds what it paid `who` to what `who` has been refunded, and
/// what it paid in all to the season's total refunds; the season stays.
proof fn lemma_refund_step(
    pre: CafeTokenize,
    season_id: String,
    investor: String,
    post: CafeTokenize,
    out: Outcome<Transfer>,
    who: Seq<char>,
)
    requires
        pre.wf(),
        CafeTokenize::refund_investment_step(pre, season_id, investor, post, out),
    ensures
        refunded_to(post, season_id@, who) == refunded_to(pre, season_id@, who) + paid(out, who),
        post.refunded_total(season_id@) == pre.refunded_total(season_id@) + match out.result {
            Ok(t) => t.amount as int,
            Err(_) => 0,
        },
        post.season(season_id@) == pre.season(season_id@),
{
    let id = season_id@;
    if let Ok(amount) = pre.refund_investment_result(id, investor@) {
        pre.lemma_season_invariant(id);
        let ps = pre.positions_of(id);
        let p = pre.position(id, investor@)->Some_0;
        let i = position_index(ps, investor@);
        assert(ps[i] == p);
        let np = InvestorPosition { refunded: true, ..p };
        lemma_sum_update(ps, i, np, refunded_of());
        if who == investor@ {
            lemma_position_replaced(ps, investor@, np);
        } else {
            lemma_position_other_updated(ps, i, np, who);
        }
    }
}

/// One purchase adds what it took from `who` to what `who` has paid in; the
/// season stays open or unchanged.
proof fn lemma_buy_step(
    pre: CafeTokenize,
    season_id: String,
    investor: String,
    shares: i128,
    post: CafeTokenize,
    out: Outcome<Transfer>,
    who: Seq<char>,
)
    requires
        pre.wf(),
        CafeTokenize::buy_shares_step(pre, season_id, investor, shares, post, out),
    ensures
        invested_by(post, season_id@, who) == invested_by(pre, season_id@, who) + paid(out, who),
        post.season(season_id@) is Some ==> pre.season(season_id@) is Some && post.season(season_id@)->Some_0.status
            == pre.season(season_id@)->Some_0.status,
{
    let id = season_id@;
    if let Ok(amount) = pre.buy_shares_result(id, investor@, shares) {
        pre.lemma_season_invariant(id);
        let ps = pre.positions_of(id);
        let prev = pre.position(id, investor@);
        let np = CafeTokenize::bought_position(prev, investor, shares, amount);
        match prev {
            Some(p) => {
                let i = position_index(ps, investor@);
                assert(ps[i] == p);
                if who == investor@ {
                    lemma_position_replaced(ps, investor@, np);
                } else {
                    lemma_position_other_updated(ps, i, np, who);
                }
            },
            None => {
                if who == investor@ {
                    lemma_position_pushed(ps, np);
                } else {
                    lemma_position_other_pushed(ps, np, who);
                }
            },
        }
    }
}

/// Over any run of claims on a season, what each investor received is what
/// was added to their claimed amount and is at most their entitlement (the
/// pool times their part of the shares sold, rounded down); everything paid
/// out together is what was added to the season's claims and at most the
/// pool.
pub proof fn lemma_claims_within_entitlement(
    states: Seq<CafeTokenize>,
    season_id: String,
    investors: Seq<String>,
    outs: Seq<Outcome<Transfer>>,
    who: Seq<char>,
)
    requires
        claim_run(states, season_id, investors, outs),
    ensures
        moved_for(outs, who) == claimed_by(states.last(), season_id@, who) - claimed_by(states[0], season_id@, who),
        moved_total(outs) == states.last().claimed_total(season_id@) - states[0].claimed_total(season_id@),
        moved_for(outs, who) <= entitled_to(states.last(), season_id@, who),
        moved_total(outs) <= match states.last().season(season_id@) {
            Some(s) => s.payout_pool as int,
            None => 0,
        },
    decreases outs.len(),
{
    let id = season_id@;
    let n = outs.len() as int;
    let first = states[0];
    let last = states.last();
    if n > 0 {
        let ps = states.drop_last();
        assert(claim_run(ps, season_id, investors.drop_last(), outs.drop_last())) by {
            assert forall|i: int| 0 <= i < ps.len() implies (#[trigger] ps[i]).wf() by {
                assert(states[i].wf());
            }
            assert forall|i: int| 0 <= i < n - 1 implies CafeTokenize::claim_payout_step(
                ps[i],
                season_id,
                investors.drop_last()[i],
                ps[i + 1],
                #[trigger] outs.drop_last()[i],
            ) by {
                assert(outs.drop_last()[i] == outs[i]);
                assert(CafeTokenize::claim_payout_step(states[i], season_id, investors[i], states[i + 1], outs[i]));
            }
        }
        lemma_claims_within_entitlement(ps, season_id, investors.drop_last(), outs.drop_last(), who);
        assert(states[n - 1].wf());
        assert(CafeTokenize::claim_payout_step(states[n - 1], season_id, investors[n - 1], states[n], outs[n - 1]));
        lemma_claim_step(states[n - 1], season_id, investors[n - 1], states[n], outs[n - 1], who);
    }
    // bounds, from the last ledger's invariant
    assert(last.wf());
    assert(first.wf());
    first.lemma_season_invariant(id);
    last.lemma_season_invariant(id);
    lemma_first_claims_nonneg(first, id, who);
    lemma_escrow_solvent(last, id);
    if let Some(s) = last.season(id) {
        lemma_untouched_totals(last, id);
        if let Some(p) = last.position(id, who) {
            let lps = last.positions_of(id);
            let k = position_index(lps, who);
            assert(lps[k] == p);
            assert(position_ok(p, s));
            if s.status == HarvestStatus::Settled {
                let pool = s.payout_pool as int;
                let sh = p.shares as int;
                let sold = s.shares_sold as int;
                assert(entitlement(s, sh) >= 0) by (nonlinear_arith)
                    requires
                        entitlement(s, sh) == (pool * sh) / sold,
                        pool > 0,
                        sh > 0,
                        sold > 0,
                ;
            }
        }
    }
}

/// Every position of season `id` in `l` has been refunded.
pub open spec fn all_refunded(l: CafeTokenize, id: Seq<char>) -> bool {
    forall|j: int| 0 <= j < l.positions_of(id).len() ==> (#[trigger] l.positions_of(id)[j]).refunded
}

/// Over any run of refunds on a season, what each investor got back is what
/// was added to their refund, everything paid back together is what was
/// added to the season's refunds and at most the capital raised, and where
/// the run starts with nothing refunded and ends with every position
/// refunded, it paid back exactly the capital raised.
pub proof fn lemma_refunds_within_capital(
    states: Seq<CafeTokenize>,
    season_id: String,
    investors: Seq<String>,
    outs: Seq<Outcome<Transfer>>,
    who: Seq<char>,
)
    requires
        refund_run(states, season_id, investors, outs),
    ensures
        moved_for(outs, who) == refunded_to(states.last(), season_id@, who) - refunded_to(states[0], season_id@, who),
        moved_total(outs) == states.last().refunded_total(season_id@) - states[0].refunded_total(season_id@),
        moved_total(outs) <= match states.last().season(season_id@) {
            Some(s) => s.raised_amount as int,
            None => 0,
        },
        states[0].refunded_total(season_id@) == 0 && all_refunded(states.last(), season_id@) ==> moved_total(outs)
            == match states.last().season(season_id@) {
            Some(s) => s.raised_amount as int,
            None => 0,
        },
    decreases outs.len(),
{
    let id = season_id@;
    let n = outs.len() as int;
    let first = states[0];
    let last = states.last();
    if n > 0 {
        let ps = states.drop_last();
        assert(refund_run(ps, season_id, investors.drop_last(), outs.drop_last())) by {
            assert forall|i: int| 0 <= i < ps.len() implies (#[trigger] ps[i]).wf() by {
                assert(states[i].wf());
            }
            assert forall|i: int| 0 <= i < n - 1 implies CafeTokenize::refund_investment_step(
                ps[i],
                season_id,
                investors.drop_last()[i],
                ps[i + 1],
                #[trigger] outs.drop_last()[i],
            ) by {
                assert(outs.drop_last()[i] == outs[i]);
                assert(CafeTokenize::refund_investment_step(states[i], season_id, investors[i], states[i + 1], outs[i]));
            }
        }
        lemma_refunds_within_capital(ps, season_id, investors.drop_last(), outs.drop_last(), who);
        assert(states[n - 1].wf());
        assert(CafeTokenize::refund_investment_step(states[n - 1], season_id, investors[n - 1], states[n], outs[n - 1]));
        lemma_refund_step(states[n - 1], season_id, investors[n - 1], states[n], outs[n - 1], who);
    }
    assert(last.wf());
    assert(first.wf());
    lemma_first_claims_nonneg(first, id, who);
    lemma_escrow_solvent(last, id);
    last.lemma_season_invariant(id);
    if let Some(s) = last.season(id) {
        lemma_untouched_totals(last, id);
        if all_refunded(last, id) {
            let lps = last.positions_of(id);
            assert forall|j: int| 0 <= j < lps.len() implies refunded_of()(#[trigger] lps[j]) <= invested_of()(lps[j])
                && invested_of()(lps[j]) <= refunded_of()(lps[j]) by {
                assert(lps[j].refunded);
            }
            lemma_sum_le(lps, refunded_of(), invested_of());
            lemma_sum_le(lps, invested_of(), refunded_of());
        }
    }
}

/// Over any run of purchases in a season, what each investor paid is what
/// was added to their investment.
pub proof fn lemma_purchases_add_up(
    states: Seq<CafeTokenize>,
    season_id: String,
    investors: Seq<String>,
    shares: Seq<i128>,
    outs: Seq<Outcome<Transfer>>,
    who: Seq<char>,
)
    requires
        buy_run(states, season_id, investors, shares, outs),
    ensures
        invested_by(states.last(), season_id@, who) == invested_by(states[0], season_id@, who) + moved_for(outs, who),
        states.last().season(season_id@) is Some ==> states[0].season(season_id@) is Some
            && states.last().season(season_id@)->Some_0.status == states[0].season(season_id@)->Some_0.status,
    decreases outs.len(),
{
    let n = outs.len() as int;
    if n > 0 {
        let ps = states.drop_last();
        assert(buy_run(ps, season_id, investors.drop_last(), shares.drop_last(), outs.drop_last())) by {
            assert forall|i: int| 0 <= i < ps.len() implies (#[trigger] ps[i]).wf() by {
                assert(states[i].wf());
            }
            assert forall|i: int| 0 <= i < n - 1 implies CafeTokenize::buy_shares_step(
                ps[i],
                season_id,
                investors.drop_last()[i],
                shares.drop_last()[i],
                ps[i + 1],
                #[trigger] outs.drop_last()[i],
            ) by {
                assert(outs.drop_last()[i] == outs[i]);
                assert(CafeTokenize::buy_shares_step(
                    states[i],
                    season_id,
                    investors[i],
                    shares[i],
                    states[i + 1],
                    outs[i],
                ));
            }
        }
        lemma_purchases_add_up(ps, season_id, investors.drop_last(), shares.drop_last(), outs.drop_last(), who);
        assert(states[n - 1].wf());
        assert(CafeTokenize::buy_shares_step(
            states[n - 1],
            season_id,
            investors[n - 1],
            shares[n - 1],
            states[n],
            outs[n - 1],
        ));
        lemma_buy_step(states[n - 1], season_id, investors[n - 1], shares[n - 1], states[n], outs[n - 1], who);
    }
}

/// A refund gives back everything an investor paid for their shares: where
/// `investor` held no position in the season, a run of purchases follows,
/// the season is then cancelled and `investor` asks for a refund, the refund
/// pays them exactly what their purchases took from them (and ends with
/// `NoPosition` where none of their purchases went through).
pub proof fn lemma_refund_returns_purchases(
    states: Seq<CafeTokenize>,
    season_id: String,
    investors: Seq<String>,
    shares: Seq<i128>,
    outs: Seq<Outcome<Transfer>>,
    caller: String,
    cancelled: CafeTokenize,
    cancel_out: Outcome<()>,
    investor: String,
    post: CafeTokenize,
    refund_out: Outcome<Transfer>,
)
    requires
        buy_run(states, season_id, investors, shares, outs),
        states[0].position(season_id@, investor@) is None,
        CafeTokenize::cancel_season_step(states.last(), season_id, caller, cancelled, cancel_out),
        cancel_out.result is Ok,
        CafeTokenize::refund_investment_step(cancelled, season_id, investor, post, refund_out),
    ensures
        moved_for(outs, investor@) > 0 ==> (refund_out.result matches Ok(t) && t.account == investor && t.amount
            == moved_for(outs, investor@)),
        moved_for(outs, investor@) == 0 ==> refund_out.result == Err::<Transfer, crate::types::CoffeeError>(
            crate::types::CoffeeError::NoPosition,
        ),
{
    let id = season_id@;
    let who = investor@;
    lemma_purchases_add_up(states, season_id, investors, shares, outs, who);
    let last = states.last();
    assert(last.wf());
    last.lemma_season_invariant(id);
    // cancelling keeps the positions; a position holds money paid in
    assert(cancelled.positions_of(id) == last.positions_of(id));
    assert(cancelled.position(id, who) == last.position(id, who));
    if let Some(p) = last.position(id, who) {
        let s = last.season(id)->Some_0;
        let lps = last.positions_of(id);
        let k = position_index(lps, who);
        assert(lps[k] == p);
        assert(position_ok(p, s));
    }
}

/// Buying in two steps is buying at once: from a well-formed ledger, buying
/// `x` and then `y` shares for an investor goes through (both purchases)
/// exactly where buying `x + y` at once does, and then both leave the same
/// season, the same positions (the second purchase adds to the position the
/// first opened or grew) and every other season as it was, and take the
/// same money from the investor.
pub proof fn lemma_buy_in_two_steps(
    pre: CafeTokenize,
    season_id: String,
    investor: String,
    x: i128,
    y: i128,
    mid: CafeTokenize,
    out_x: Outcome<Transfer>,
    post_two: CafeTokenize,
    out_y: Outcome<Transfer>,
    post_once: CafeTokenize,
    out_once: Outcome<Transfer>,
)
    requires
        pre.wf(),
        mid.wf(),
        x > 0,
        y > 0,
        x + y <= i128::MAX,
        CafeTokenize::buy_shares_step(pre, season_id, investor, x, mid, out_x),
        CafeTokenize::buy_shares_step(mid, season_id, investor, y, post_two, out_y),
        CafeTokenize::buy_shares_step(pre, season_id, investor, (x + y) as i128, post_once, out_once),
    ensures
        (out_x.result is Ok && out_y.result is Ok) <==> out_once.result is Ok,
        out_once.result is Ok ==> {
            &&& post_two.season(season_id@) == post_once.season(season_id@)
            &&& post_two.positions_of(season_id@) == post_once.positions_of(season_id@)
            &&& post_two.position(season_id@, investor@) == post_once.position(season_id@, investor@)
            &&& post_two.admin_id() == post_once.admin_id()
            &&& forall|k: Seq<char>|
                k != season_id@ ==> #[trigger] post_two.season(k) == post_once.season(k)
                    && post_two.positions_of(k) == post_once.positions_of(k)
            &&& out_x.result->Ok_0.amount + out_y.result->Ok_0.amount == out_once.result->Ok_0.amount
        },
{
    let id = season_id@;
    let w = investor@;
    let z = (x + y) as i128;
    pre.lemma_season_invariant(id);
    mid.lemma_season_invariant(id);
    if let Some(s) = pre.season(id) {
        let ps = pre.positions_of(id);
        let p = s.price_per_share as int;
        let (held, paid) = match pre.position(id, w) {
            Some(q) => (q.shares as int, q.invested_amount as int),
            None => (0int, 0int),
        };
        if let Some(q) = pre.position(id, w) {
            let i = position_index(ps, w);
            assert(ps[i] == q);
            assert(position_ok(q, s));
        }
        assert(held >= 0 && paid >= 0);
        assert(s.raised_amount >= 0 && s.shares_sold >= 0);
        assert((x + y) * p == x * p + y * p) by (nonlinear_arith);
        assert(x * p > 0) by (nonlinear_arith)
            requires
                x > 0,
                p > 0,
        ;
        assert(y * p > 0) by (nonlinear_arith)
            requires
                y > 0,
                p > 0,
        ;
        let r_x = pre.buy_shares_result(id, w, x);
        if let Ok(ax) = r_x {
            // the ledger after the first purchase
            let prev = pre.position(id, w);
            let np1 = CafeTokenize::bought_position(prev, investor, x, ax);
            let mps = mid.positions_of(id);
            let j = match prev {
                Some(_) => position_index(ps, w),
                None => ps.len() as int,
            };
            match prev {
                Some(q) => {
                    lemma_position_replaced(ps, w, np1);
                },
                None => {
                    lemma_position_pushed(ps, np1);
                },
            }
            assert(mps[j] == np1);
            assert(mid.position(id, w) == Some(np1));
            let k = position_index(mps, w);
            assert(mps[k].investor@ == w);
            assert(k == j);
            let r_y = mid.buy_shares_result(id, w, y);
            if let Ok(ay) = r_y {
                let np2 = CafeTokenize::bought_position(Some(np1), investor, y, ay);
                let npz = CafeTokenize::bought_position(prev, investor, z, (ax + ay) as i128);
                assert(np2 == npz);
                match prev {
                    Some(q) => {
                        assert(post_two.positions_of(id) =~= ps.update(j, npz));
                    },
                    None => {
                        assert(post_two.positions_of(id) =~= ps.push(npz));
                    },
                }
            }
        }
    }
}

/// Claims and claim totals are never negative.
proof fn lemma_first_claims_nonneg(l: CafeTokenize, id: Seq<char>, who: Seq<char>)
    requires
        l.wf(),
    ensures
        claimed_by(l, id, who) >= 0,
        l.claimed_total(id) >= 0,
        refunded_to(l, id, who) >= 0,
        l.refunded_total(id) >= 0,
        invested_by(l, id, who) >= 0,
{
    l.lemma_season_invariant(id);
    let ps = l.positions_of(id);
    if let Some(s) = l.season(id) {
        if let Some(p) = l.position(id, who) {
            let k = position_index(ps, who);
            assert(ps[k] == p);
            assert(position_ok(p, s));
        }
        let zero = |p: InvestorPosition| 0int;
        assert forall|j: int| 0 <= j < ps.len() implies zero(#[trigger] ps[j]) <= claimed_of()(ps[j])
            && zero(ps[j]) <= refunded_of()(ps[j]) by {
            assert(position_ok(ps[j], s));
        }
        lemma_sum_le(ps, zero, claimed_of());
        lemma_sum_le(ps, zero, refunded_of());
        lemma_sum_zero_fn(ps);
    } else {
        assert(ps.len() == 0);
    }
}

/// The sum of the zero function is zero.
proof fn lemma_sum_zero_fn(ps: Seq<InvestorPosition>)
    ensures
        sum_over(ps, |p: InvestorPosition| 0int) == 0,
    decreases ps.len(),
{
    if ps.len() > 0 {
        lemma_sum_zero_fn(ps.drop_last());
    }
}

} // verus!
