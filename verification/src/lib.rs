//! Harvest-season crowdfunding: farmers open a season of shares, investors
//! buy shares into escrow, the farmer draws the capital, pays a harvest
//! pool back in, and investors claim their pro-rata part of it; a cancelled
//! season refunds its investors.
//!
//! The ledger decides; the host that runs it carries out what each outcome
//! asks for: it checks the signer's authorization first, then moves the
//! tokens of the transfer, and keeps the ledger only where the result is `Ok`.

use vstd::prelude::*;

pub mod arith;
pub mod history;
pub mod laws;
pub mod ledger;
pub mod rules;
pub mod runs;
pub mod sums;
pub mod types;
pub mod validate;

pub use arith::{checked_add, checked_mul, checked_sub};
pub use ledger::{CafeTokenize, SeasonRecord};
pub use types::{CoffeeError, Flow, HarvestSeason, HarvestStatus, InvestorPosition, Outcome, Transfer};
