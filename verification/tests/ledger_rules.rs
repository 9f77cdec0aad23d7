use cafe_tokenize::{
    checked_add, checked_mul, checked_sub, CafeTokenize, CoffeeError, Flow, HarvestSeason, HarvestStatus,
    InvestorPosition, SeasonRecord,
};

fn s(x: &str) -> String {
    x.to_string()
}

const ADMIN: &str = "GADMIN";
const FARMER: &str = "GFARMER";
const ASSET: &str = "CASSET";

fn ledger_with_season(id: &str, total: i128, price: i128) -> CafeTokenize {
    let mut l = CafeTokenize::new(s(ADMIN));
    l.create_season(s(id), s(FARMER), s("Arabica"), s("Lam Dong"), total, price, s(ASSET), 100, 1_780_704_000)
        .result
        .unwrap();
    l
}

#[test]
fn checked_arithmetic_exact_values() {
    assert_eq!(checked_add(2, 3), Ok(5));
    assert_eq!(checked_add(i128::MAX, 1), Err(CoffeeError::Overflow));
    assert_eq!(checked_sub(2, 3), Ok(-1));
    assert_eq!(checked_sub(i128::MIN, 1), Err(CoffeeError::Overflow));
    assert_eq!(checked_mul(40, 1_000), Ok(40_000));
    assert_eq!(checked_mul(i128::MAX, 2), Err(CoffeeError::Overflow));
}

#[test]
fn create_season_rules() {
    let mut l = CafeTokenize::new(s(ADMIN));
    let out = l.create_season(s("a"), s(FARMER), s("x"), s("y"), 0, 10, s(ASSET), 5, 0);
    assert_eq!(out.signer, Some(s(FARMER)));
    assert_eq!(out.result, Err(CoffeeError::InvalidAmount));
    assert!(l.get_season(s("a")).is_none());
    let out = l.create_season(s("a"), s(FARMER), s("x"), s("y"), 10, 10, s(ASSET), 0, 0);
    assert_eq!(out.result, Err(CoffeeError::InvalidAmount));
    l.create_season(s("a"), s(FARMER), s("x"), s("y"), 10, 10, s(ASSET), 5, 0).result.unwrap();
    let out = l.create_season(s("a"), s("GOTHER"), s("x"), s("y"), 10, 10, s(ASSET), 5, 0);
    assert_eq!(out.result, Err(CoffeeError::AlreadyExists));
    let season = l.get_season(s("a")).unwrap();
    assert_eq!(season.status, HarvestStatus::Open);
    assert_eq!(season.shares_sold, 0);
    assert_eq!(season.raised_amount, 0);
    assert_eq!(season.payout_pool, 0);
    assert_eq!(season.farmer, s(FARMER));
}

#[test]
fn buy_shares_rules() {
    let mut l = ledger_with_season("s", 10, 500);
    let out = l.buy_shares(s("s"), s("GINV"), 0);
    assert_eq!(out.signer, Some(s("GINV")));
    assert_eq!(out.result.unwrap_err(), CoffeeError::InvalidAmount);
    assert_eq!(l.buy_shares(s("nope"), s("GINV"), 1).result.unwrap_err(), CoffeeError::NotFound);
    let t = l.buy_shares(s("s"), s("GINV"), 4).result.unwrap();
    assert_eq!(t.flow, Flow::IntoEscrow);
    assert_eq!(t.account, s("GINV"));
    assert_eq!(t.asset, s(ASSET));
    assert_eq!(t.amount, 2_000);
    // a second purchase adds to the same position
    l.buy_shares(s("s"), s("GINV"), 2).result.unwrap();
    let p = l.get_position(s("s"), s("GINV")).unwrap();
    assert_eq!(p.shares, 6);
    assert_eq!(p.invested_amount, 3_000);
    let season = l.get_season(s("s")).unwrap();
    assert_eq!(season.shares_sold, 6);
    assert_eq!(season.raised_amount, 3_000);
    assert_eq!(l.buy_shares(s("s"), s("GOTHER"), 5).result.unwrap_err(), CoffeeError::Oversubscribed);
    // the failed purchase changed nothing
    assert_eq!(l.get_season(s("s")).unwrap().shares_sold, 6);
    assert!(l.get_position(s("s"), s("GOTHER")).is_none());
    l.buy_shares(s("s"), s("GOTHER"), 4).result.unwrap();
    assert_eq!(l.get_season(s("s")).unwrap().shares_sold, 10);
    l.release_capital(s("s"), s(FARMER)).result.unwrap();
    assert_eq!(l.buy_shares(s("s"), s("GOTHER"), 1).result.unwrap_err(), CoffeeError::InvalidState);
}

#[test]
fn buy_shares_overflow() {
    let mut l = ledger_with_season("big", 10, i128::MAX);
    let out = l.buy_shares(s("big"), s("GINV"), 2);
    assert_eq!(out.result.unwrap_err(), CoffeeError::Overflow);
    assert_eq!(l.get_season(s("big")).unwrap().shares_sold, 0);
}

#[test]
fn release_and_settle_rules() {
    let mut l = ledger_with_season("s", 10, 100);
    let out = l.release_capital(s("s"), s(FARMER));
    assert_eq!(out.signer, Some(s(FARMER)));
    assert_eq!(out.result.unwrap_err(), CoffeeError::InvalidState);
    let out = l.release_capital(s("nope"), s(FARMER));
    assert_eq!(out.signer, None);
    assert_eq!(out.result.unwrap_err(), CoffeeError::NotFound);
    assert_eq!(l.settle_payout(s("s"), 500).result.unwrap_err(), CoffeeError::InvalidState);
    l.buy_shares(s("s"), s("GINV"), 3).result.unwrap();
    let t = l.release_capital(s("s"), s(FARMER)).result.unwrap();
    assert_eq!(t.flow, Flow::OutOfEscrow);
    assert_eq!(t.account, s(FARMER));
    assert_eq!(t.amount, 300);
    assert_eq!(l.get_season(s("s")).unwrap().status, HarvestStatus::Active);
    assert_eq!(l.release_capital(s("s"), s(FARMER)).result.unwrap_err(), CoffeeError::InvalidState);
    let out = l.settle_payout(s("s"), 0);
    assert_eq!(out.signer, None);
    assert_eq!(out.result.unwrap_err(), CoffeeError::InvalidAmount);
    let out = l.settle_payout(s("s"), 900);
    assert_eq!(out.signer, Some(s(FARMER)));
    let t = out.result.unwrap();
    assert_eq!(t.flow, Flow::IntoEscrow);
    assert_eq!(t.account, s(FARMER));
    assert_eq!(t.amount, 900);
    let season = l.get_season(s("s")).unwrap();
    assert_eq!(season.status, HarvestStatus::Settled);
    assert_eq!(season.payout_pool, 900);
    assert_eq!(l.settle_payout(s("s"), 900).result.unwrap_err(), CoffeeError::InvalidState);
}

#[test]
fn claim_payout_rounds_down_and_only_once() {
    let mut l = ledger_with_season("s", 3, 10);
    l.buy_shares(s("s"), s("GA"), 1).result.unwrap();
    l.buy_shares(s("s"), s("GB"), 2).result.unwrap();
    assert_eq!(l.claim_payout(s("s"), s("GA")).result.unwrap_err(), CoffeeError::InvalidState);
    l.release_capital(s("s"), s(FARMER)).result.unwrap();
    l.settle_payout(s("s"), 100).result.unwrap();
    let t = l.claim_payout(s("s"), s("GA")).result.unwrap();
    assert_eq!(t.flow, Flow::OutOfEscrow);
    assert_eq!(t.amount, 33);
    let t = l.claim_payout(s("s"), s("GB")).result.unwrap();
    assert_eq!(t.amount, 66);
    let out = l.claim_payout(s("s"), s("GA"));
    assert_eq!(out.signer, Some(s("GA")));
    assert_eq!(out.result.unwrap_err(), CoffeeError::NothingToClaim);
    assert_eq!(l.get_position(s("s"), s("GA")).unwrap().claimed_amount, 33);
    assert_eq!(l.claim_payout(s("s"), s("GC")).result.unwrap_err(), CoffeeError::NoPosition);
    assert_eq!(l.claim_payout(s("x"), s("GA")).result.unwrap_err(), CoffeeError::NotFound);
}

#[test]
fn cancel_and_refund_rules() {
    let mut l = ledger_with_season("s", 10, 7);
    l.buy_shares(s("s"), s("GA"), 3).result.unwrap();
    assert_eq!(l.refund_investment(s("s"), s("GA")).result.unwrap_err(), CoffeeError::InvalidState);
    let out = l.cancel_season(s("s"), s("GSTRANGER"));
    assert_eq!(out.signer, Some(s("GSTRANGER")));
    assert_eq!(out.result, Err(CoffeeError::NotAuthorized));
    assert_eq!(l.cancel_season(s("x"), s(FARMER)).result, Err(CoffeeError::NotFound));
    l.cancel_season(s("s"), s(FARMER)).result.unwrap();
    assert_eq!(l.get_season(s("s")).unwrap().status, HarvestStatus::Cancelled);
    assert_eq!(l.cancel_season(s("s"), s(ADMIN)).result, Err(CoffeeError::InvalidState));
    assert_eq!(l.buy_shares(s("s"), s("GA"), 1).result.unwrap_err(), CoffeeError::InvalidState);
    assert_eq!(l.refund_investment(s("s"), s("GB")).result.unwrap_err(), CoffeeError::NoPosition);
    let t = l.refund_investment(s("s"), s("GA")).result.unwrap();
    assert_eq!(t.flow, Flow::OutOfEscrow);
    assert_eq!(t.account, s("GA"));
    assert_eq!(t.amount, 21);
    assert_eq!(l.refund_investment(s("s"), s("GA")).result.unwrap_err(), CoffeeError::AlreadyRefunded);
    assert!(l.get_position(s("s"), s("GA")).unwrap().refunded);
}

#[test]
fn admin_rules() {
    let mut l = CafeTokenize::new(s(ADMIN));
    assert_eq!(l.admin().unwrap(), s(ADMIN));
    let out = l.transfer_admin(s("GNOTADMIN"), s("GNEW"));
    assert_eq!(out.signer, None);
    assert_eq!(out.result, Err(CoffeeError::NotAuthorized));
    assert_eq!(l.admin().unwrap(), s(ADMIN));
    let out = l.transfer_admin(s(ADMIN), s("GNEW"));
    assert_eq!(out.signer, Some(s(ADMIN)));
    assert_eq!(out.result, Ok(()));
    assert_eq!(l.admin().unwrap(), s("GNEW"));
    // the old administrator can no longer hand it over
    assert_eq!(l.transfer_admin(s(ADMIN), s("GOTHER")).result, Err(CoffeeError::NotAuthorized));
    // the new one may cancel seasons it did not create
    l.create_season(s("s"), s(FARMER), s("x"), s("y"), 5, 5, s(ASSET), 5, 0).result.unwrap();
    assert_eq!(l.cancel_season(s("s"), s("GNEW")).result, Ok(()));
}

#[test]
fn escrow_follows_the_transfers() {
    // net escrow of one season, tracked from the transfers alone
    let mut l = ledger_with_season("s", 10, 100);
    let mut escrow: i128 = 0;
    let mut apply = |t: cafe_tokenize::Transfer| match t.flow {
        Flow::IntoEscrow => escrow += t.amount,
        Flow::OutOfEscrow => escrow -= t.amount,
    };
    apply(l.buy_shares(s("s"), s("GA"), 4).result.unwrap());
    apply(l.buy_shares(s("s"), s("GB"), 6).result.unwrap());
    apply(l.release_capital(s("s"), s(FARMER)).result.unwrap());
    apply(l.settle_payout(s("s"), 1_001).result.unwrap());
    apply(l.claim_payout(s("s"), s("GA")).result.unwrap());
    apply(l.claim_payout(s("s"), s("GB")).result.unwrap());
    drop(apply);
    // 1001 * 4 / 10 = 400 and 1001 * 6 / 10 = 600: one token stays for rounding
    assert_eq!(escrow, 1);
}

#[test]
fn records_round_trip() {
    let mut l = ledger_with_season("s", 10, 100);
    l.buy_shares(s("s"), s("GA"), 4).result.unwrap();
    let (admin, records) = l.into_records();
    assert_eq!(admin, s(ADMIN));
    assert_eq!(records.len(), 1);
    let l2 = CafeTokenize::from_records(admin, records).unwrap();
    assert_eq!(l2.get_season(s("s")).unwrap().shares_sold, 4);
    assert_eq!(l2.get_position(s("s"), s("GA")).unwrap().invested_amount, 400);
}

fn season(total: i128, sold: i128, raised: i128) -> HarvestSeason {
    HarvestSeason {
        farmer: s(FARMER),
        coffee_type: s("x"),
        region: s("y"),
        total_shares: total,
        shares_sold: sold,
        price_per_share: 10,
        raised_amount: raised,
        payout_pool: 0,
        asset: s(ASSET),
        expected_yield_kg: 1,
        harvest_date: 0,
        status: HarvestStatus::Open,
    }
}

fn position(who: &str, shares: i128, invested: i128) -> InvestorPosition {
    InvestorPosition { investor: s(who), shares, invested_amount: invested, claimed_amount: 0, refunded: false }
}

#[test]
fn records_that_do_not_add_up_are_refused() {
    let ok = SeasonRecord { season_id: s("s"), season: season(10, 3, 30), positions: vec![position("GA", 3, 30)] };
    assert!(CafeTokenize::from_records(s(ADMIN), vec![ok]).is_some());
    let oversold = SeasonRecord { season_id: s("s"), season: season(2, 3, 30), positions: vec![position("GA", 3, 30)] };
    assert!(CafeTokenize::from_records(s(ADMIN), vec![oversold]).is_none());
    let mismatch = SeasonRecord { season_id: s("s"), season: season(10, 4, 30), positions: vec![position("GA", 3, 30)] };
    assert!(CafeTokenize::from_records(s(ADMIN), vec![mismatch]).is_none());
    let twice = SeasonRecord {
        season_id: s("s"),
        season: season(10, 4, 40),
        positions: vec![position("GA", 3, 30), position("GA", 1, 10)],
    };
    assert!(CafeTokenize::from_records(s(ADMIN), vec![twice]).is_none());
    let a = SeasonRecord { season_id: s("s"), season: season(10, 0, 0), positions: vec![] };
    let b = SeasonRecord { season_id: s("s"), season: season(10, 0, 0), positions: vec![] };
    assert!(CafeTokenize::from_records(s(ADMIN), vec![a, b]).is_none());
}

#[test]
fn administrator_or_farmer_releases_capital() {
    let mut l = ledger_with_season("s", 10, 100);
    l.buy_shares(s("s"), s("GINV"), 2).result.unwrap();
    let out = l.release_capital(s("s"), s("GSTRANGER"));
    assert_eq!(out.signer, Some(s("GSTRANGER")));
    assert_eq!(out.result.unwrap_err(), CoffeeError::NotAuthorized);
    assert_eq!(l.get_season(s("s")).unwrap().status, HarvestStatus::Open);
    let out = l.release_capital(s("s"), s(ADMIN));
    assert_eq!(out.signer, Some(s(ADMIN)));
    let t = out.result.unwrap();
    assert_eq!(t.flow, Flow::OutOfEscrow);
    assert_eq!(t.account, s(FARMER));
    assert_eq!(t.amount, 200);
    assert_eq!(l.get_season(s("s")).unwrap().status, HarvestStatus::Active);
}

#[test]
fn refund_returns_every_purchase() {
    let mut l = ledger_with_season("s", 20, 30);
    let mut paid_a = 0;
    let mut paid_b = 0;
    paid_a += l.buy_shares(s("s"), s("GA"), 3).result.unwrap().amount;
    paid_b += l.buy_shares(s("s"), s("GB"), 4).result.unwrap().amount;
    paid_a += l.buy_shares(s("s"), s("GA"), 2).result.unwrap().amount;
    assert_eq!(paid_a, 150);
    assert_eq!(l.get_season(s("s")).unwrap().raised_amount, 270);
    l.cancel_season(s("s"), s(FARMER)).result.unwrap();
    let back_a = l.refund_investment(s("s"), s("GA")).result.unwrap().amount;
    let back_b = l.refund_investment(s("s"), s("GB")).result.unwrap().amount;
    assert_eq!(back_a, paid_a);
    assert_eq!(back_b, paid_b);
    // every position refunded: the refunds add up to the capital raised
    assert_eq!(back_a + back_b, l.get_season(s("s")).unwrap().raised_amount);
    assert_eq!(l.refund_investment(s("s"), s("GC")).result.unwrap_err(), CoffeeError::NoPosition);
}

#[test]
fn claims_stay_within_the_pool() {
    let mut l = ledger_with_season("s", 7, 1);
    for who in ["GA", "GB", "GC"] {
        l.buy_shares(s("s"), s(who), if who == "GA" { 3 } else { 2 }).result.unwrap();
    }
    l.release_capital(s("s"), s(FARMER)).result.unwrap();
    l.settle_payout(s("s"), 10).result.unwrap();
    let mut total = 0;
    for who in ["GA", "GB", "GC", "GA", "GB"] {
        if let Ok(t) = l.claim_payout(s("s"), s(who)).result {
            total += t.amount;
        }
    }
    // 10*3/7 = 4, 10*2/7 = 2, 10*2/7 = 2
    assert_eq!(total, 8);
    assert!(total <= 10);
}

#[test]
fn positions_exist_only_after_a_purchase() {
    let mut l = ledger_with_season("s", 10, 5);
    assert!(l.get_position(s("s"), s("GA")).is_none());
    assert_eq!(l.buy_shares(s("s"), s("GA"), 11).result.unwrap_err(), CoffeeError::Oversubscribed);
    assert!(l.get_position(s("s"), s("GA")).is_none());
    l.buy_shares(s("s"), s("GA"), 1).result.unwrap();
    let p = l.get_position(s("s"), s("GA")).unwrap();
    assert_eq!(p.investor, s("GA"));
    assert_eq!(p.shares, 1);
    assert!(l.get_season(s("other")).is_none());
}

#[test]
fn buying_in_two_steps_is_buying_at_once() {
    let mut two = ledger_with_season("s", 10, 40);
    let mut once = ledger_with_season("s", 10, 40);
    let a = two.buy_shares(s("s"), s("GA"), 3).result.unwrap().amount;
    let b = two.buy_shares(s("s"), s("GA"), 4).result.unwrap().amount;
    let c = once.buy_shares(s("s"), s("GA"), 7).result.unwrap().amount;
    assert_eq!(a + b, c);
    let (p2, p1) = (two.get_position(s("s"), s("GA")).unwrap(), once.get_position(s("s"), s("GA")).unwrap());
    assert_eq!((p2.shares, p2.invested_amount), (p1.shares, p1.invested_amount));
    let (s2, s1) = (two.get_season(s("s")).unwrap(), once.get_season(s("s")).unwrap());
    assert_eq!((s2.shares_sold, s2.raised_amount), (s1.shares_sold, s1.raised_amount));
    // and where buying at once fails, the two steps do not both go through
    let mut two = ledger_with_season("t", 10, 40);
    let mut once = ledger_with_season("t", 10, 40);
    assert!(two.buy_shares(s("t"), s("GA"), 6).result.is_ok());
    assert_eq!(two.buy_shares(s("t"), s("GA"), 5).result.unwrap_err(), CoffeeError::Oversubscribed);
    assert_eq!(once.buy_shares(s("t"), s("GA"), 11).result.unwrap_err(), CoffeeError::Oversubscribed);
}
