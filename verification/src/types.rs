//! The values that the ledger stores and hands out.

use vstd::prelude::*;

verus! {

/// The life cycle of a harvest season.
#[derive(Clone, Copy, Debug, PartialEq, Eq, Structural)]
pub enum HarvestStatus {
    /// Shares are on sale; the capital raised sits in escrow.
    Open,
    /// The capital has been handed to the farmer.
    Active,
    /// The farmer has paid the harvest pool into escrow; investors claim from it.
    Settled,
    /// The season was called off; investors take their money back.
    Cancelled,
}

/// Errors that an operation of the ledger can end with.
#[derive(Clone, Copy, Debug, PartialEq, Eq, Structural)]
pub enum CoffeeError {
    AlreadyExists,
    NotFound,
    NotAuthorized,
    InvalidAmount,
    InvalidState,
    Oversubscribed,
    NoPosition,
    AlreadyRefunded,
    NothingToClaim,
    Overflow,
}

/// One harvest season. Accounts and assets are written as their address text.
#[derive(Debug)]
pub struct HarvestSeason {
    pub farmer: String,
    pub coffee_type: String,
    pub region: String,
    pub total_shares: i128,
    pub shares_sold: i128,
    pub price_per_share: i128,
    pub raised_amount: i128,
    pub payout_pool: i128,
    pub asset: String,
    pub expected_yield_kg: i128,
    pub harvest_date: i64,
    pub status: HarvestStatus,
}

impl Clone for HarvestSeason {
    fn clone(&self) -> (r: Self)
        ensures
            r == *self,
    {
        HarvestSeason {
            farmer: self.farmer.clone(),
            coffee_type: self.coffee_type.clone(),
            region: self.region.clone(),
            total_shares: self.total_shares,
            shares_sold: self.shares_sold,
            price_per_share: self.price_per_share,
            raised_amount: self.raised_amount,
            payout_pool: self.payout_pool,
            asset: self.asset.clone(),
            expected_yield_kg: self.expected_yield_kg,
            harvest_date: self.harvest_date,
            status: self.status,
        }
    }
}

/// What one investor holds in one season.
#[derive(Debug)]
pub struct InvestorPosition {
    pub investor: String,
    pub shares: i128,
    pub invested_amount: i128,
    pub claimed_amount: i128,
    pub refunded: bool,
}

impl Clone for InvestorPosition {
    fn clone(&self) -> (r: Self)
        ensures
            r == *self,
    {
        InvestorPosition {
            investor: self.investor.clone(),
            shares: self.shares,
            invested_amount: self.invested_amount,
            claimed_amount: self.claimed_amount,
            refunded: self.refunded,
        }
    }
}

/// Which way a token transfer crosses the contract's escrow.
#[derive(Clone, Copy, Debug, PartialEq, Eq, Structural)]
pub enum Flow {
    /// From `account` into the escrow.
    IntoEscrow,
    /// From the escrow to `account`.
    OutOfEscrow,
}

/// A token transfer that an operation asks the host to carry out.
#[derive(Debug)]
pub struct Transfer {
    pub flow: Flow,
    pub asset: String,
    pub account: String,
    pub amount: i128,
}

impl Transfer {
    /// The change that the transfer makes to the escrow's holdings.
    pub open spec fn escrow_delta(self) -> int {
        match self.flow {
            Flow::IntoEscrow => self.amount as int,
            Flow::OutOfEscrow => -self.amount,
        }
    }
}

/// The outcome of an operation: the account whose authorization the host
/// must check before anything else takes effect (if any), and the result.
/// An error leaves the ledger as it was.
#[derive(Debug)]
pub struct Outcome<T> {
    pub signer: Option<String>,
    pub result: Result<T, CoffeeError>,
}

} // verus!
