//! The operations on a season as a whole, and on the administration.

use vstd::prelude::*;

use super::{
    lemma_positions_carry_over, lemma_records_push, lemma_records_replace, season_ok, season_with_positions_ok,
    CafeTokenize, SeasonRecord,
};
use crate::sums::{invested_of, shares_of, sum_over};
use crate::types::{CoffeeError, Flow, HarvestSeason, HarvestStatus, InvestorPosition, Outcome, Transfer};

verus! {

impl CafeTokenize {
    /// The result of `create_season` on this ledger.
    pub open spec fn create_season_result(
        self,
        season_id: Seq<char>,
        total_shares: i128,
        price_per_share: i128,
        expected_yield_kg: i128,
    ) -> Result<(), CoffeeError> {
        if total_shares <= 0 || price_per_share <= 0 || expected_yield_kg <= 0 {
            Err(CoffeeError::InvalidAmount)
        } else if self.season(season_id) is Some {
            Err(CoffeeError::AlreadyExists)
        } else {
            Ok(())
        }
    }

    /// What `create_season` does: it asks for the farmer's authorization,
    /// and stores an open season with nothing sold and no positions.
    pub open spec fn create_season_step(
        pre: Self,
        season_id: String,
        farmer: String,
        coffee_type: String,
        region: String,
        total_shares: i128,
        price_per_share: i128,
        asset: String,
        expected_yield_kg: i128,
        harvest_date: i64,
        post: Self,
        out: Outcome<()>,
    ) -> bool {
        &&& out.signer == Some(farmer)
        &&& out.result == pre.create_season_result(season_id@, total_shares, price_per_share, expected_yield_kg)
        &&& out.result is Err ==> post == pre
        &&& out.result is Ok ==> {
            &&& Self::only_season_changed(pre, post, season_id@)
            &&& post.season(season_id@) == Some(
                HarvestSeason {
                    farmer,
                    coffee_type,
                    region,
                    total_shares,
                    shares_sold: 0,
                    price_per_share,
                    raised_amount: 0,
                    payout_pool: 0,
                    asset,
                    expected_yield_kg,
                    harvest_date,
                    status: HarvestStatus::Open,
                },
            )
            &&& post.positions_of(season_id@) == Seq::<InvestorPosition>::empty()
        }
    }

    /// Opens a new season `season_id` of `total_shares` shares at
    /// `price_per_share` each, paid in `asset`.
    pub fn create_season(
        &mut self,
        season_id: String,
        farmer: String,
        coffee_type: String,
        region: String,
        total_shares: i128,
        price_per_share: i128,
        asset: String,
        expected_yield_kg: i128,
        harvest_date: i64,
    ) -> (out: Outcome<()>)
        ensures
            final(self).wf(),
            Self::create_season_step(
                *old(self),
                season_id,
                farmer,
                coffee_type,
                region,
                total_shares,
                price_per_share,
                asset,
                expected_yield_kg,
                harvest_date,
                *final(self),
                out,
            ),
    {
        proof {
            use_type_invariant(&*self);
        }
        let signer = Some(farmer.clone());
        if total_shares <= 0 || price_per_share <= 0 || expected_yield_kg <= 0 {
            return Outcome { signer, result: Err(CoffeeError::InvalidAmount) };
        }
        if self.find_entry(&season_id).is_some() {
            return Outcome { signer, result: Err(CoffeeError::AlreadyExists) };
        }
        let season = HarvestSeason {
            farmer,
            coffee_type,
            region,
            total_shares,
            shares_sold: 0,
            price_per_share,
            raised_amount: 0,
            payout_pool: 0,
            asset,
            expected_yield_kg,
            harvest_date,
            status: HarvestStatus::Open,
        };
        let entry = SeasonRecord { season_id, season, positions: Vec::new() };
        let ghost pre = *self;
        let mut entries: Vec<SeasonRecord> = Vec::new();
        std::mem::swap(&mut entries, &mut self.entries);
        entries.push(entry);
        proof {
            assert(sum_over(entry.positions@, shares_of()) == 0);
            assert(sum_over(entry.positions@, invested_of()) == 0);
            assert forall|j: int| 0 <= j < pre.entries@.len() implies (#[trigger] pre.entries@[j]).season_id@
                != entry.season_id@ by {
                assert(!pre.has_entry(entry.season_id@));
            }
            lemma_records_push(pre.entries@, entry);
        }
        self.entries = entries;
        proof {
            Self::lemma_push_entry(pre, *self, entry);
        }
        Outcome { signer, result: Ok(()) }
    }

    /// Puts `season` in place of the season of entry `i`, keeping its id and
    /// its positions. The old season is open or active (so no position has
    /// claimed or been refunded) and the new one keeps its shares sold and
    /// capital raised, so the ledger stays well formed.
    fn replace_season(&mut self, i: usize, season: HarvestSeason)
        requires
            i < old(self).entries@.len(),
            season_ok(season),
            season.shares_sold == old(self).entries@[i as int].season.shares_sold,
            season.raised_amount == old(self).entries@[i as int].season.raised_amount,
            old(self).entries@[i as int].season.status == HarvestStatus::Open
                || old(self).entries@[i as int].season.status == HarvestStatus::Active,
        ensures
            final(self).wf(),
            Self::only_season_changed(*old(self), *final(self), old(self).entries@[i as int].season_id@),
            final(self).season(old(self).entries@[i as int].season_id@) == Some(season),
            final(self).positions_of(old(self).entries@[i as int].season_id@)
                == old(self).entries@[i as int].positions@,
    {
        proof {
            use_type_invariant(&*self);
        }
        let ghost pre = *self;
        let ghost old_entry = self.entries@[i as int];
        proof {
            assert(season_with_positions_ok(old_entry.season, old_entry.positions@));
        }
        let mut entries: Vec<SeasonRecord> = Vec::new();
        std::mem::swap(&mut entries, &mut self.entries);
        let mut e = entries.remove(i);
        e.season = season;
        proof {
            lemma_positions_carry_over(e.positions@, old_entry.season, season);
        }
        entries.insert(i, e);
        proof {
            assert(entries@ =~= pre.entries@.update(i as int, e));
            lemma_records_replace(pre.entries@, i as int, e);
        }
        self.entries = entries;
        proof {
            Self::lemma_replace_entry(pre, *self, i as int, e);
        }
    }

    /// The farmer who must authorize operations on season `id`, if it exists.
    pub open spec fn farmer_of(self, id: Seq<char>) -> Option<String> {
        match self.season(id) {
            Some(s) => Some(s.farmer),
            None => None,
        }
    }

    /// The result of `release_capital` on this ledger, called by `caller`:
    /// the capital handed to the farmer. The farmer or the administrator may
    /// release the capital of an open season that raised some.
    pub open spec fn release_capital_result(self, season_id: Seq<char>, caller: Seq<char>) -> Result<
        i128,
        CoffeeError,
    > {
        match self.season(season_id) {
            None => Err(CoffeeError::NotFound),
            Some(s) => if s.status != HarvestStatus::Open || s.raised_amount <= 0 {
                Err(CoffeeError::InvalidState)
            } else if caller != s.farmer@ && caller != self.admin_id() {
                Err(CoffeeError::NotAuthorized)
            } else {
                Ok(s.raised_amount)
            },
        }
    }

    /// What `release_capital` does: once the season is found, it asks for
    /// the caller's authorization; where the caller is the farmer or the
    /// administrator, it moves the whole capital raised from escrow to the
    /// farmer and makes the season active.
    pub open spec fn release_capital_step(
        pre: Self,
        season_id: String,
        caller: String,
        post: Self,
        out: Outcome<Transfer>,
    ) -> bool {
        let r = pre.release_capital_result(season_id@, caller@);
        &&& out.signer == (if pre.season(season_id@) is Some {
            Some(caller)
        } else {
            None
        })
        &&& r is Err ==> out.result == Err::<Transfer, CoffeeError>(r->Err_0) && post == pre
        &&& r matches Ok(amount) ==> {
            let s = pre.season(season_id@)->Some_0;
            &&& out.result matches Ok(t) && t.flow == Flow::OutOfEscrow && t.asset == s.asset && t.account
                == s.farmer && t.amount == amount
            &&& Self::only_season_changed(pre, post, season_id@)
            &&& post.season(season_id@) == Some(HarvestSeason { status: HarvestStatus::Active, ..s })
            &&& post.positions_of(season_id@) == pre.positions_of(season_id@)
        }
    }

    /// Hands the capital raised for season `season_id` to its farmer, on
    /// behalf of `caller`.
    pub fn release_capital(&mut self, season_id: String, caller: String) -> (out: Outcome<Transfer>)
        ensures
            final(self).wf(),
            Self::release_capital_step(*old(self), season_id, caller, *final(self), out),
    {
        proof {
            use_type_invariant(&*self);
        }
        let i = match self.find_entry(&season_id) {
            Some(i) => i,
            None => return Outcome { signer: None, result: Err(CoffeeError::NotFound) },
        };
        proof {
            assert(season_with_positions_ok(self.entries@[i as int].season, self.entries@[i as int].positions@));
        }
        let signer = Some(caller.clone());
        if self.entries[i].season.status != HarvestStatus::Open || self.entries[i].season.raised_amount <= 0 {
            return Outcome { signer, result: Err(CoffeeError::InvalidState) };
        }
        if caller != self.entries[i].season.farmer && caller != self.admin {
            return Outcome { signer, result: Err(CoffeeError::NotAuthorized) };
        }
        let mut season = self.entries[i].season.clone();
        let amount = season.raised_amount;
        let transfer = Transfer {
            flow: Flow::OutOfEscrow,
            asset: season.asset.clone(),
            account: season.farmer.clone(),
            amount,
        };
        season.status = HarvestStatus::Active;
        self.replace_season(i, season);
        Outcome { signer, result: Ok(transfer) }
    }

    /// The result of `settle_payout` on this ledger: the pool paid in.
    pub open spec fn settle_payout_result(self, season_id: Seq<char>, payout_amount: i128) -> Result<
        i128,
        CoffeeError,
    > {
        if payout_amount <= 0 {
            Err(CoffeeError::InvalidAmount)
        } else {
            match self.season(season_id) {
                None => Err(CoffeeError::NotFound),
                Some(s) => if s.status != HarvestStatus::Active || s.shares_sold <= 0 {
                    Err(CoffeeError::InvalidState)
                } else {
                    Ok(payout_amount)
                },
            }
        }
    }

    /// What `settle_payout` does: once the amount is positive and the season
    /// is found, it asks for the farmer's authorization, moves the pool from
    /// the farmer into escrow and settles the season with that pool.
    pub open spec fn settle_payout_step(
        pre: Self,
        season_id: String,
        payout_amount: i128,
        post: Self,
        out: Outcome<Transfer>,
    ) -> bool {
        let r = pre.settle_payout_result(season_id@, payout_amount);
        &&& out.signer == (if payout_amount <= 0 {
            None
        } else {
            pre.farmer_of(season_id@)
        })
        &&& r is Err ==> out.result == Err::<Transfer, CoffeeError>(r->Err_0) && post == pre
        &&& r matches Ok(amount) ==> {
            let s = pre.season(season_id@)->Some_0;
            &&& out.result matches Ok(t) && t.flow == Flow::IntoEscrow && t.asset == s.asset && t.account
                == s.farmer && t.amount == amount
            &&& Self::only_season_changed(pre, post, season_id@)
            &&& post.season(season_id@) == Some(
                HarvestSeason { payout_pool: payout_amount, status: HarvestStatus::Settled, ..s },
            )
            &&& post.positions_of(season_id@) == pre.positions_of(season_id@)
        }
    }

    /// The farmer of season `season_id` pays `payout_amount` in as the
    /// harvest pool.
    pub fn settle_payout(&mut self, season_id: String, payout_amount: i128) -> (out: Outcome<Transfer>)
        ensures
            final(self).wf(),
            Self::settle_payout_step(*old(self), season_id, payout_amount, *final(self), out),
    {
        proof {
            use_type_invariant(&*self);
        }
        if payout_amount <= 0 {
            return Outcome { signer: None, result: Err(CoffeeError::InvalidAmount) };
        }
        let i = match self.find_entry(&season_id) {
            Some(i) => i,
            None => return Outcome { signer: None, result: Err(CoffeeError::NotFound) },
        };
        proof {
            assert(season_with_positions_ok(self.entries@[i as int].season, self.entries@[i as int].positions@));
        }
        let signer = Some(self.entries[i].season.farmer.clone());
        if self.entries[i].season.status != HarvestStatus::Active || self.entries[i].season.shares_sold <= 0 {
            return Outcome { signer, result: Err(CoffeeError::InvalidState) };
        }
        let mut season = self.entries[i].season.clone();
        let transfer = Transfer {
            flow: Flow::IntoEscrow,
            asset: season.asset.clone(),
            account: season.farmer.clone(),
            amount: payout_amount,
        };
        season.payout_pool = payout_amount;
        season.status = HarvestStatus::Settled;
        self.replace_season(i, season);
        Outcome { signer, result: Ok(transfer) }
    }

    /// The result of `cancel_season` on this ledger.
    pub open spec fn cancel_season_result(self, season_id: Seq<char>, caller: Seq<char>) -> Result<(), CoffeeError> {
        match self.season(season_id) {
            None => Err(CoffeeError::NotFound),
            Some(s) => if s.status != HarvestStatus::Open {
                Err(CoffeeError::InvalidState)
            } else if caller != s.farmer@ && caller != self.admin_id() {
                Err(CoffeeError::NotAuthorized)
            } else {
                Ok(())
            },
        }
    }

    /// What `cancel_season` does: it asks for the caller's authorization,
    /// and an open season's farmer or the administrator may cancel it.
    pub open spec fn cancel_season_step(pre: Self, season_id: String, caller: String, post: Self, out: Outcome<()>) -> bool {
        &&& out.signer == Some(caller)
        &&& out.result == pre.cancel_season_result(season_id@, caller@)
        &&& out.result is Err ==> post == pre
        &&& out.result is Ok ==> {
            let s = pre.season(season_id@)->Some_0;
            &&& Self::only_season_changed(pre, post, season_id@)
            &&& post.season(season_id@) == Some(HarvestSeason { status: HarvestStatus::Cancelled, ..s })
            &&& post.positions_of(season_id@) == pre.positions_of(season_id@)
        }
    }

    /// Cancels the open season `season_id` on behalf of `caller`.
    pub fn cancel_season(&mut self, season_id: String, caller: String) -> (out: Outcome<()>)
        ensures
            final(self).wf(),
            Self::cancel_season_step(*old(self), season_id, caller, *final(self), out),
    {
        proof {
            use_type_invariant(&*self);
        }
        let signer = Some(caller.clone());
        let i = match self.find_entry(&season_id) {
            Some(i) => i,
            None => return Outcome { signer, result: Err(CoffeeError::NotFound) },
        };
        proof {
            assert(season_with_positions_ok(self.entries@[i as int].season, self.entries@[i as int].positions@));
        }
        if self.entries[i].season.status != HarvestStatus::Open {
            return Outcome { signer, result: Err(CoffeeError::InvalidState) };
        }
        if caller != self.entries[i].season.farmer && caller != self.admin {
            return Outcome { signer, result: Err(CoffeeError::NotAuthorized) };
        }
        let mut season = self.entries[i].season.clone();
        season.status = HarvestStatus::Cancelled;
        self.replace_season(i, season);
        Outcome { signer, result: Ok(()) }
    }

    /// What `transfer_admin` does: where `current_admin` is the
    /// administrator, it asks for that account's authorization and makes
    /// `new_admin` the administrator.
    pub open spec fn transfer_admin_step(
        pre: Self,
        current_admin: String,
        new_admin: String,
        post: Self,
        out: Outcome<()>,
    ) -> bool {
        if pre.admin_id() != current_admin@ {
            &&& out.signer is None
            &&& out.result == Err::<(), CoffeeError>(CoffeeError::NotAuthorized)
            &&& post == pre
        } else {
            &&& out.signer == Some(current_admin)
            &&& out.result == Ok::<(), CoffeeError>(())
            &&& post.admin_id() == new_admin@
            &&& forall|k: Seq<char>|
                #[trigger] post.season(k) == pre.season(k) && post.positions_of(k) == pre.positions_of(k)
        }
    }

    /// Hands the administration from `current_admin` to `new_admin`.
    pub fn transfer_admin(&mut self, current_admin: String, new_admin: String) -> (out: Outcome<()>)
        ensures
            final(self).wf(),
            Self::transfer_admin_step(*old(self), current_admin, new_admin, *final(self), out),
    {
        proof {
            use_type_invariant(&*self);
        }
        if self.admin != current_admin {
            return Outcome { signer: None, result: Err(CoffeeError::NotAuthorized) };
        }
        self.admin = new_admin;
        Outcome { signer: Some(current_admin), result: Ok(()) }
    }

}

} // verus!
