use std::collections::HashMap;

use cafe_tokenize::{CafeTokenize, CoffeeError, Flow, HarvestStatus, Outcome, Transfer};

const ESCROW: &str = "CESCROW";

/// A token ledger standing in for the host: it carries out the transfers
/// that the outcomes ask for.
struct Bank {
    balances: HashMap<(String, String), i128>,
}

impl Bank {
    fn new() -> Self {
        Bank { balances: HashMap::new() }
    }

    fn mint(&mut self, asset: &str, to: &str, amount: i128) {
        *self.balances.entry((asset.to_string(), to.to_string())).or_insert(0) += amount;
    }

    fn balance(&self, asset: &str, who: &str) -> i128 {
        *self.balances.get(&(asset.to_string(), who.to_string())).unwrap_or(&0)
    }

    fn apply(&mut self, t: &Transfer) {
        let (from, to) = match t.flow {
            Flow::IntoEscrow => (t.account.clone(), ESCROW.to_string()),
            Flow::OutOfEscrow => (ESCROW.to_string(), t.account.clone()),
        };
        let from_balance = self.balance(&t.asset, &from);
        assert!(from_balance >= t.amount);
        self.balances.insert((t.asset.clone(), from), from_balance - t.amount);
        self.mint(&t.asset, &to, t.amount);
    }

    /// Runs an outcome: a transfer on success, the amount moved returned.
    fn run(&mut self, out: Outcome<Transfer>) -> Result<i128, CoffeeError> {
        match out.result {
            Ok(t) => {
                self.apply(&t);
                Ok(t.amount)
            }
            Err(e) => Err(e),
        }
    }
}

fn s(x: &str) -> String {
    x.to_string()
}

const ADMIN: &str = "GADMIN";
const ASSET: &str = "CASSET";
const FARMER: &str = "GFARMER";
const INVESTOR: &str = "GINVESTOR";

fn setup() -> (CafeTokenize, Bank) {
    let ledger = CafeTokenize::new(s(ADMIN));
    let mut bank = Bank::new();
    bank.mint(ASSET, FARMER, 1_000_000_i128);
    bank.mint(ASSET, INVESTOR, 1_000_000_i128);
    (ledger, bank)
}

fn create(
    ledger: &mut CafeTokenize,
    id: &str,
    coffee: &str,
    region: &str,
    total: i128,
    price: i128,
    yield_kg: i128,
    date: i64,
) -> Result<(), CoffeeError> {
    ledger
        .create_season(s(id), s(FARMER), s(coffee), s(region), total, price, s(ASSET), yield_kg, date)
        .result
}

#[test]
fn test_full_coffee_harvest_flow() {
    let (mut ledger, mut bank) = setup();
    let investor_a = INVESTOR;
    let investor_b = "GINVESTORB";
    bank.mint(ASSET, investor_b, 1_000_000_i128);

    let season_id = "crop2026";
    create(&mut ledger, season_id, "Arabica", "Lam Dong", 100_i128, 1_000_i128, 5_000_i128, 1_780_704_000_i64)
        .unwrap();

    bank.run(ledger.buy_shares(s(season_id), s(investor_a), 40_i128)).unwrap();
    bank.run(ledger.buy_shares(s(season_id), s(investor_b), 60_i128)).unwrap();
    bank.run(ledger.release_capital(s(season_id), s(FARMER))).unwrap();
    bank.run(ledger.settle_payout(s(season_id), 150_000_i128)).unwrap();

    let payout_a = bank.run(ledger.claim_payout(s(season_id), s(investor_a))).unwrap();
    let payout_b = bank.run(ledger.claim_payout(s(season_id), s(investor_b))).unwrap();

    assert_eq!(payout_a, 60_000_i128);
    assert_eq!(payout_b, 90_000_i128);

    let season = ledger.get_season(s(season_id)).unwrap();
    assert_eq!(season.status, HarvestStatus::Settled);
    assert_eq!(bank.balance(ASSET, investor_a), 1_020_000_i128);
    assert_eq!(bank.balance(ASSET, investor_b), 1_030_000_i128);
}

#[test]
fn test_cannot_oversubscribe_shares() {
    let (mut ledger, mut bank) = setup();
    let season_id = "smalllot";

    create(&mut ledger, season_id, "Robusta", "Dak Lak", 10_i128, 500_i128, 800_i128, 1_780_704_000_i64).unwrap();

    bank.run(ledger.buy_shares(s(season_id), s(INVESTOR), 8_i128)).unwrap();
    let result = bank.run(ledger.buy_shares(s(season_id), s(INVESTOR), 3_i128));
    assert!(result.is_err());
}

#[test]
fn test_cancel_and_refund() {
    let (mut ledger, mut bank) = setup();
    let season_id = "refund1";

    create(&mut ledger, season_id, "Excelsa", "Gia Lai", 50_i128, 2_000_i128, 1_200_i128, 1_780_704_000_i64)
        .unwrap();

    bank.run(ledger.buy_shares(s(season_id), s(INVESTOR), 10_i128)).unwrap();
    ledger.cancel_season(s(season_id), s(ADMIN)).result.unwrap();
    let refunded = bank.run(ledger.refund_investment(s(season_id), s(INVESTOR))).unwrap();

    assert_eq!(refunded, 20_000_i128);
    assert_eq!(bank.balance(ASSET, INVESTOR), 1_000_000_i128);

    let position = ledger.get_position(s(season_id), s(INVESTOR)).unwrap();
    assert!(position.refunded);
}

#[test]
fn test_transfer_admin() {
    let (mut ledger, _bank) = setup();
    let new_admin = "GNEWADMIN";

    ledger.transfer_admin(s(ADMIN), s(new_admin)).result.unwrap();
    assert_eq!(ledger.admin().unwrap(), s(new_admin));
}
