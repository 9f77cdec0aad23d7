//! The operations on an investor's position: buying shares, claiming the
//! payout, taking a refund.

use vstd::prelude::*;

use super::{
    entitlement, find_position, lemma_records_replace, position_index, position_ok, season_ok,
    season_with_positions_ok, CafeTokenize, SeasonRecord,
};
use crate::arith::{checked_add, checked_mul, checked_sub, fits_i128};
use crate::sums::{invested_of, lemma_sum_push, lemma_sum_update, shares_of};
use crate::types::{CoffeeError, Flow, HarvestSeason, HarvestStatus, InvestorPosition, Outcome, Transfer};

verus! {

impl CafeTokenize {
    /// The result of `buy_shares` on this ledger: the price of the shares
    /// bought, or the first check that fails.
    pub open spec fn buy_shares_result(self, season_id: Seq<char>, investor: Seq<char>, shares: i128) -> Result<
        i128,
        CoffeeError,
    > {
        if shares <= 0 {
            Err(CoffeeError::InvalidAmount)
        } else {
            match self.season(season_id) {
                None => Err(CoffeeError::NotFound),
                Some(s) => {
                    if s.status != HarvestStatus::Open {
                        Err(CoffeeError::InvalidState)
                    } else if !fits_i128(s.total_shares - s.shares_sold) {
                        Err(CoffeeError::Overflow)
                    } else if shares > s.total_shares - s.shares_sold {
                        Err(CoffeeError::Oversubscribed)
                    } else if !fits_i128(shares * s.price_per_share) {
                        Err(CoffeeError::Overflow)
                    } else {
                        let amount = shares * s.price_per_share;
                        let (held, paid) = match self.position(season_id, investor) {
                            Some(p) => (p.shares as int, p.invested_amount as int),
                            None => (0int, 0int),
                        };
                        if !fits_i128(held + shares) || !fits_i128(paid + amount) || !fits_i128(
                            s.shares_sold + shares,
                        ) || !fits_i128(s.raised_amount + amount) {
                            Err(CoffeeError::Overflow)
                        } else {
                            Ok(amount as i128)
                        }
                    }
                },
            }
        }
    }

    /// `investor`'s position after buying `shares` more for `amount`.
    pub open spec fn bought_position(
        prev: Option<InvestorPosition>,
        investor: String,
        shares: i128,
        amount: i128,
    ) -> InvestorPosition {
        match prev {
            Some(p) => InvestorPosition {
                shares: (p.shares + shares) as i128,
                invested_amount: (p.invested_amount + amount) as i128,
                ..p
            },
            None => InvestorPosition {
                investor,
                shares,
                invested_amount: amount,
                claimed_amount: 0,
                refunded: false,
            },
        }
    }

    /// What `buy_shares` does: it asks for the investor's authorization,
    /// moves the price of the shares from the investor into escrow, adds the
    /// shares and the price to the season and to the investor's position
    /// (opening one where there is none).
    pub open spec fn buy_shares_step(
        pre: Self,
        season_id: String,
        investor: String,
        shares: i128,
        post: Self,
        out: Outcome<Transfer>,
    ) -> bool {
        let r = pre.buy_shares_result(season_id@, investor@, shares);
        &&& out.signer == Some(investor)
        &&& r is Err ==> out.result == Err::<Transfer, CoffeeError>(r->Err_0) && post == pre
        &&& r matches Ok(amount) ==> {
            let s = pre.season(season_id@)->Some_0;
            let ps = pre.positions_of(season_id@);
            let prev = pre.position(season_id@, investor@);
            let np = Self::bought_position(prev, investor, shares, amount);
            &&& out.result matches Ok(t) && t.flow == Flow::IntoEscrow && t.asset == s.asset && t.account
                == investor && t.amount == amount
            &&& Self::only_season_changed(pre, post, season_id@)
            &&& post.season(season_id@) == Some(
                HarvestSeason {
                    shares_sold: (s.shares_sold + shares) as i128,
                    raised_amount: (s.raised_amount + amount) as i128,
                    ..s
                },
            )
            &&& post.positions_of(season_id@) == match prev {
                Some(_) => ps.update(position_index(ps, investor@), np),
                None => ps.push(np),
            }
        }
    }

    /// Buys `shares` shares of season `season_id` for `investor`.
    pub fn buy_shares(&mut self, season_id: String, investor: String, shares: i128) -> (out: Outcome<
        Transfer,
    >)
        ensures
            final(self).wf(),
            Self::buy_shares_step(*old(self), season_id, investor, shares, *final(self), out),
    {
        proof {
            use_type_invariant(&*self);
        }
        let signer = Some(investor.clone());
        if shares <= 0 {
            return Outcome { signer, result: Err(CoffeeError::InvalidAmount) };
        }
        let i = match self.find_entry(&season_id) {
            Some(i) => i,
            None => return Outcome { signer, result: Err(CoffeeError::NotFound) },
        };
        proof {
            assert(season_with_positions_ok(self.entries@[i as int].season, self.entries@[i as int].positions@));
        }
        if self.entries[i].season.status != HarvestStatus::Open {
            return Outcome { signer, result: Err(CoffeeError::InvalidState) };
        }
        let remaining = match checked_sub(self.entries[i].season.total_shares, self.entries[i].season.shares_sold) {
            Ok(v) => v,
            Err(e) => return Outcome { signer, result: Err(e) },
        };
        if shares > remaining {
            return Outcome { signer, result: Err(CoffeeError::Oversubscribed) };
        }
        let amount = match checked_mul(shares, self.entries[i].season.price_per_share) {
            Ok(v) => v,
            Err(e) => return Outcome { signer, result: Err(e) },
        };
        let found = find_position(&self.entries[i].positions, &investor);
        let (held, paid) = match found {
            Some(j) => (self.entries[i].positions[j].shares, self.entries[i].positions[j].invested_amount),
            None => (0i128, 0i128),
        };
        let new_held = match checked_add(held, shares) {
            Ok(v) => v,
            Err(e) => return Outcome { signer, result: Err(e) },
        };
        let new_paid = match checked_add(paid, amount) {
            Ok(v) => v,
            Err(e) => return Outcome { signer, result: Err(e) },
        };
        let new_sold = match checked_add(self.entries[i].season.shares_sold, shares) {
            Ok(v) => v,
            Err(e) => return Outcome { signer, result: Err(e) },
        };
        let new_raised = match checked_add(self.entries[i].season.raised_amount, amount) {
            Ok(v) => v,
            Err(e) => return Outcome { signer, result: Err(e) },
        };
        let asset = self.entries[i].season.asset.clone();
        let ghost pre = *self;
        let ghost old_entry = self.entries@[i as int];
        proof {
            assert(shares * old_entry.season.price_per_share > 0) by (nonlinear_arith)
                requires
                    shares > 0,
                    old_entry.season.price_per_share > 0,
            ;
        }
        let mut entries: Vec<SeasonRecord> = Vec::new();
        std::mem::swap(&mut entries, &mut self.entries);
        let mut e = entries.remove(i);
        e.season.shares_sold = new_sold;
        e.season.raised_amount = new_raised;
        let ghost old_ps = e.positions@;
        let np;
        match found {
            Some(j) => {
                np = InvestorPosition {
                    investor: e.positions[j].investor.clone(),
                    shares: new_held,
                    invested_amount: new_paid,
                    claimed_amount: e.positions[j].claimed_amount,
                    refunded: e.positions[j].refunded,
                };
                e.positions.set(j, np.clone());
                proof {
                    lemma_sum_update(old_ps, j as int, np, shares_of());
                    lemma_sum_update(old_ps, j as int, np, invested_of());
                }
            },
            None => {
                np = InvestorPosition {
                    investor: investor.clone(),
                    shares,
                    invested_amount: amount,
                    claimed_amount: 0,
                    refunded: false,
                };
                e.positions.push(np.clone());
                proof {
                    lemma_sum_push(old_ps, np, shares_of());
                    lemma_sum_push(old_ps, np, invested_of());
                }
            },
        }
        proof {
            let ps = e.positions@;
            let price = old_entry.season.price_per_share as int;
            let sold = old_entry.season.shares_sold as int;
            assert((sold + shares) * price == sold * price + shares * price) by (nonlinear_arith);
            assert(season_ok(e.season));
            assert forall|a: int, b: int|
                0 <= a < ps.len() && 0 <= b < ps.len() && (#[trigger] ps[a]).investor@ == (#[trigger] ps[b]).investor@
                    implies a == b by {
                if a < old_ps.len() && b < old_ps.len() {
                    assert(old_ps[a].investor@ == ps[a].investor@);
                    assert(old_ps[b].investor@ == ps[b].investor@);
                } else if a < old_ps.len() {
                    assert(old_ps[a].investor@ == investor@);
                } else if b < old_ps.len() {
                    assert(old_ps[b].investor@ == investor@);
                }
            }
            assert forall|j: int| 0 <= j < ps.len() implies position_ok(#[trigger] ps[j], e.season) by {
                if j < old_ps.len() {
                    assert(position_ok(old_ps[j], old_entry.season));
                }
            }
        }
        entries.insert(i, e);
        proof {
            assert(entries@ =~= pre.entries@.update(i as int, e));
            lemma_records_replace(pre.entries@, i as int, e);
        }
        self.entries = entries;
        proof {
            Self::lemma_replace_entry(pre, *self, i as int, e);
        }
        Outcome {
            signer,
            result: Ok(Transfer { flow: Flow::IntoEscrow, asset, account: investor, amount }),
        }
    }

    /// Puts `p` in place of position `j` of entry `i`: the same investor's
    /// position with the same shares and money paid in, in bounds for the
    /// season, so the ledger stays well formed.
    fn replace_position(&mut self, i: usize, j: usize, p: InvestorPosition)
        requires
            i < old(self).entries@.len(),
            j < old(self).entries@[i as int].positions@.len(),
            p.investor@ == old(self).entries@[i as int].positions@[j as int].investor@,
            p.shares == old(self).entries@[i as int].positions@[j as int].shares,
            p.invested_amount == old(self).entries@[i as int].positions@[j as int].invested_amount,
            position_ok(p, old(self).entries@[i as int].season),
        ensures
            final(self).wf(),
            Self::only_season_changed(*old(self), *final(self), old(self).entries@[i as int].season_id@),
            final(self).season(old(self).entries@[i as int].season_id@) == Some(old(self).entries@[i as int].season),
            final(self).positions_of(old(self).entries@[i as int].season_id@)
                == old(self).entries@[i as int].positions@.update(j as int, p),
    {
        proof {
            use_type_invariant(&*self);
        }
        let ghost pre = *self;
        let ghost old_entry = self.entries@[i as int];
        let ghost old_ps = old_entry.positions@;
        proof {
            assert(season_with_positions_ok(old_entry.season, old_ps));
            lemma_sum_update(old_ps, j as int, p, shares_of());
            lemma_sum_update(old_ps, j as int, p, invested_of());
            let ps = old_ps.update(j as int, p);
            assert forall|a: int, b: int|
                0 <= a < ps.len() && 0 <= b < ps.len() && (#[trigger] ps[a]).investor@ == (#[trigger] ps[b]).investor@
                    implies a == b by {
                assert(old_ps[a].investor@ == ps[a].investor@);
                assert(old_ps[b].investor@ == ps[b].investor@);
            }
            assert forall|k: int| 0 <= k < ps.len() implies position_ok(#[trigger] ps[k], old_entry.season) by {
                if k != j {
                    assert(position_ok(old_ps[k], old_entry.season));
                }
            }
        }
        let mut entries: Vec<SeasonRecord> = Vec::new();
        std::mem::swap(&mut entries, &mut self.entries);
        let mut e = entries.remove(i);
        e.positions.set(j, p);
        entries.insert(i, e);
        proof {
            assert(entries@ =~= pre.entries@.update(i as int, e));
            lemma_records_replace(pre.entries@, i as int, e);
        }
        self.entries = entries;
        proof {
            Self::lemma_replace_entry(pre, *self, i as int, e);
        }
    }

    /// The result of `claim_payout` on this ledger: what is left to claim of
    /// the investor's entitlement, the pool times the investor's part of the
    /// shares sold, rounded down.
    pub open spec fn claim_payout_result(self, season_id: Seq<char>, investor: Seq<char>) -> Result<i128, CoffeeError> {
        match self.season(season_id) {
            None => Err(CoffeeError::NotFound),
            Some(s) => if s.status != HarvestStatus::Settled || s.shares_sold <= 0 {
                Err(CoffeeError::InvalidState)
            } else {
                match self.position(season_id, investor) {
                    None => Err(CoffeeError::NoPosition),
                    Some(p) => if p.refunded {
                        Err(CoffeeError::InvalidState)
                    } else if !fits_i128(s.payout_pool * p.shares) {
                        Err(CoffeeError::Overflow)
                    } else {
                        let claimable = entitlement(s, p.shares as int) - p.claimed_amount;
                        if !fits_i128(claimable) {
                            Err(CoffeeError::Overflow)
                        } else if claimable <= 0 {
                            Err(CoffeeError::NothingToClaim)
                        } else if !fits_i128(p.claimed_amount + claimable) {
                            Err(CoffeeError::Overflow)
                        } else {
                            Ok(claimable as i128)
                        }
                    },
                }
            },
        }
    }

    /// What `claim_payout` does: it asks for the investor's authorization,
    /// moves what is left of the investor's entitlement from escrow to the
    /// investor and records it as claimed.
    pub open spec fn claim_payout_step(
        pre: Self,
        season_id: String,
        investor: String,
        post: Self,
        out: Outcome<Transfer>,
    ) -> bool {
        let r = pre.claim_payout_result(season_id@, investor@);
        &&& out.signer == Some(investor)
        &&& r is Err ==> out.result == Err::<Transfer, CoffeeError>(r->Err_0) && post == pre
        &&& r matches Ok(amount) ==> {
            let s = pre.season(season_id@)->Some_0;
            let ps = pre.positions_of(season_id@);
            let p = pre.position(season_id@, investor@)->Some_0;
            &&& out.result matches Ok(t) && t.flow == Flow::OutOfEscrow && t.asset == s.asset && t.account
                == investor && t.amount == amount
            &&& Self::only_season_changed(pre, post, season_id@)
            &&& post.season(season_id@) == Some(s)
            &&& post.positions_of(season_id@) == ps.update(
                position_index(ps, investor@),
                InvestorPosition { claimed_amount: (p.claimed_amount + amount) as i128, ..p },
            )
        }
    }

    /// Pays `investor` what is left of their share of the harvest pool of
    /// season `season_id`.
    pub fn claim_payout(&mut self, season_id: String, investor: String) -> (out: Outcome<Transfer>)
        ensures
            final(self).wf(),
            Self::claim_payout_step(*old(self), season_id, investor, *final(self), out),
    {
        proof {
            use_type_invariant(&*self);
        }
        let signer = Some(investor.clone());
        let i = match self.find_entry(&season_id) {
            Some(i) => i,
            None => return Outcome { signer, result: Err(CoffeeError::NotFound) },
        };
        proof {
            assert(season_with_positions_ok(self.entries@[i as int].season, self.entries@[i as int].positions@));
        }
        if self.entries[i].season.status != HarvestStatus::Settled || self.entries[i].season.shares_sold <= 0 {
            return Outcome { signer, result: Err(CoffeeError::InvalidState) };
        }
        let j = match find_position(&self.entries[i].positions, &investor) {
            Some(j) => j,
            None => return Outcome { signer, result: Err(CoffeeError::NoPosition) },
        };
        let ghost s = self.entries@[i as int].season;
        let ghost p = self.entries@[i as int].positions@[j as int];
        proof {
            assert(position_ok(p, s));
        }
        if self.entries[i].positions[j].refunded {
            return Outcome { signer, result: Err(CoffeeError::InvalidState) };
        }
        let gross = match checked_mul(self.entries[i].season.payout_pool, self.entries[i].positions[j].shares) {
            Ok(v) => v,
            Err(e) => return Outcome { signer, result: Err(e) },
        };
        proof {
            assert(s.payout_pool * p.shares > 0) by (nonlinear_arith)
                requires
                    s.payout_pool > 0,
                    p.shares > 0,
            ;
        }
        let entitled = gross / self.entries[i].season.shares_sold;
        proof {
            assert(entitled == entitlement(s, p.shares as int));
            assert(0 <= entitled <= gross) by (nonlinear_arith)
                requires
                    entitled == gross / s.shares_sold,
                    gross > 0,
                    s.shares_sold > 0,
            ;
        }
        let claimable = match checked_sub(entitled, self.entries[i].positions[j].claimed_amount) {
            Ok(v) => v,
            Err(e) => return Outcome { signer, result: Err(e) },
        };
        if claimable <= 0 {
            return Outcome { signer, result: Err(CoffeeError::NothingToClaim) };
        }
        let new_claimed = match checked_add(self.entries[i].positions[j].claimed_amount, claimable) {
            Ok(v) => v,
            Err(e) => return Outcome { signer, result: Err(e) },
        };
        let asset = self.entries[i].season.asset.clone();
        let old_p = &self.entries[i].positions[j];
        let np = InvestorPosition {
            investor: old_p.investor.clone(),
            shares: old_p.shares,
            invested_amount: old_p.invested_amount,
            claimed_amount: new_claimed,
            refunded: old_p.refunded,
        };
        self.replace_position(i, j, np);
        Outcome {
            signer,
            result: Ok(Transfer { flow: Flow::OutOfEscrow, asset, account: investor, amount: claimable }),
        }
    }

    /// The result of `refund_investment` on this ledger: the money the
    /// investor paid in.
    pub open spec fn refund_investment_result(self, season_id: Seq<char>, investor: Seq<char>) -> Result<
        i128,
        CoffeeError,
    > {
        match self.season(season_id) {
            None => Err(CoffeeError::NotFound),
            Some(s) => if s.status != HarvestStatus::Cancelled {
                Err(CoffeeError::InvalidState)
            } else {
                match self.position(season_id, investor) {
                    None => Err(CoffeeError::NoPosition),
                    Some(p) => if p.refunded {
                        Err(CoffeeError::AlreadyRefunded)
                    } else if p.invested_amount <= 0 {
                        Err(CoffeeError::NothingToClaim)
                    } else {
                        Ok(p.invested_amount)
                    },
                }
            },
        }
    }

    /// What `refund_investment` does: it asks for the investor's
    /// authorization, moves the money the investor paid in from escrow back
    /// to the investor and marks the position refunded.
    pub open spec fn refund_investment_step(
        pre: Self,
        season_id: String,
        investor: String,
        post: Self,
        out: Outcome<Transfer>,
    ) -> bool {
        let r = pre.refund_investment_result(season_id@, investor@);
        &&& out.signer == Some(investor)
        &&& r is Err ==> out.result == Err::<Transfer, CoffeeError>(r->Err_0) && post == pre
        &&& r matches Ok(amount) ==> {
            let s = pre.season(season_id@)->Some_0;
            let ps = pre.positions_of(season_id@);
            let p = pre.position(season_id@, investor@)->Some_0;
            &&& out.result matches Ok(t) && t.flow == Flow::OutOfEscrow && t.asset == s.asset && t.account
                == investor && t.amount == amount
            &&& Self::only_season_changed(pre, post, season_id@)
            &&& post.season(season_id@) == Some(s)
            &&& post.positions_of(season_id@) == ps.update(
                position_index(ps, investor@),
                InvestorPosition { refunded: true, ..p },
            )
        }
    }

    /// Gives `investor` back what they paid into the cancelled season
    /// `season_id`.
    pub fn refund_investment(&mut self, season_id: String, investor: String) -> (out: Outcome<Transfer>)
        ensures
            final(self).wf(),
            Self::refund_investment_step(*old(self), season_id, investor, *final(self), out),
    {
        proof {
            use_type_invariant(&*self);
        }
        let signer = Some(investor.clone());
        let i = match self.find_entry(&season_id) {
            Some(i) => i,
            None => return Outcome { signer, result: Err(CoffeeError::NotFound) },
        };
        proof {
            assert(season_with_positions_ok(self.entries@[i as int].season, self.entries@[i as int].positions@));
        }
        if self.entries[i].season.status != HarvestStatus::Cancelled {
            return Outcome { signer, result: Err(CoffeeError::InvalidState) };
        }
        let j = match find_position(&self.entries[i].positions, &investor) {
            Some(j) => j,
            None => return Outcome { signer, result: Err(CoffeeError::NoPosition) },
        };
        let ghost s = self.entries@[i as int].season;
        if self.entries[i].positions[j].refunded {
            return Outcome { signer, result: Err(CoffeeError::AlreadyRefunded) };
        }
        if self.entries[i].positions[j].invested_amount <= 0 {
            return Outcome { signer, result: Err(CoffeeError::NothingToClaim) };
        }
        let refund_amount = self.entries[i].positions[j].invested_amount;
        let asset = self.entries[i].season.asset.clone();
        let old_p = &self.entries[i].positions[j];
        let np = InvestorPosition {
            investor: old_p.investor.clone(),
            shares: old_p.shares,
            invested_amount: old_p.invested_amount,
            claimed_amount: old_p.claimed_amount,
            refunded: true,
        };
        self.replace_position(i, j, np);
        Outcome {
            signer,
            result: Ok(Transfer { flow: Flow::OutOfEscrow, asset, account: investor, amount: refund_amount }),
        }
    }

}

} // verus!
