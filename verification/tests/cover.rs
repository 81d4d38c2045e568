use bq_protocol::assoc::AssocMap;
use bq_protocol::cover;
use bq_protocol::cover::SplitAdjustment;
use bq_protocol::error::{Error, ErrorKind};
use bq_protocol::types::{Cover, Deposit, GenericCoverInfo, Pool, RiskType, Status};
use candid::{Nat, Principal};

fn id(x: u8) -> Principal {
    Principal::from_slice(&[x])
}

fn amt(v: u64) -> Nat {
    Nat::from(v)
}

const POOL: u8 = 1;
const OWNER: u8 = 2;
const GOV: u8 = 3;
const LEDGER: u8 = 4;

fn covers() -> cover::State {
    let mut state = cover::State::new();
    cover::init(&mut state, id(POOL), id(OWNER), id(GOV), id(LEDGER));
    state
}

fn pool_with(tvl: u64, risk_type: RiskType) -> Pool {
    Pool {
        pool_name: "alpha".to_string(),
        risk_type,
        apy: amt(5),
        min_period: amt(30),
        tvl: amt(tvl),
        tcp: amt(0),
        is_active: true,
        percentage_split_balance: amt(100),
        deposits: AssocMap::new(),
    }
}

fn listed(cover_id: u64, name: &str) -> Cover {
    Cover {
        id: amt(cover_id),
        cover_name: name.to_string(),
        risk_type: RiskType::Stablecoin,
        chains: "icp".to_string(),
        capacity: amt(10),
        cost: amt(1),
        capacity_amount: amt(100),
        cover_values: amt(0),
        max_amount: amt(100),
        pool_id: amt(1),
        cid: "cid".to_string(),
    }
}

fn make_cover(state: &mut cover::State, cover_id: u64, capacity: u64, tvl: u64) -> Result<(), Error> {
    cover::create_cover(
        state,
        amt(cover_id),
        "cid".to_string(),
        RiskType::Stablecoin,
        format!("cover {}", cover_id),
        "icp".to_string(),
        amt(capacity),
        amt(3),
        amt(1),
        Some(vec![]),
        Some(pool_with(tvl, RiskType::Stablecoin)),
    )
}

fn deposit(status: Status, start: u64, expiry: u64, daily: u64) -> Deposit {
    Deposit {
        lp: id(7),
        amount: amt(1_000),
        pool_id: amt(1),
        daily_payout: amt(daily),
        status,
        days_left: amt(30),
        start_date: amt(start),
        expiry_date: amt(expiry),
        accrued_payout: amt(0),
    }
}

#[test]
fn new_cover_manager_is_empty() {
    let state = cover::State::new();
    assert_eq!(state.covers.len(), 0);
    assert_eq!(state.cover_ids, Vec::<Nat>::new());
    assert_eq!(state.lp_contract, None);
    let state = covers();
    assert_eq!(state.lp_contract, Some(id(POOL)));
    assert_eq!(state.owner, Some(id(OWNER)));
    assert_eq!(state.gov_address, Some(id(GOV)));
    assert_eq!(state.bqbtc_address, Some(id(LEDGER)));
}

#[test]
fn capacity_amount_is_the_percentage_of_the_pool_value() {
    assert_eq!(cover::capacity_amount(&amt(1_000), &amt(10)), amt(100));
    assert_eq!(cover::capacity_amount(&amt(999), &amt(33)), amt(329));
    assert_eq!(cover::capacity_amount(&amt(1), &amt(99)), amt(0));
    assert_eq!(cover::capacity_amount(&amt(0), &amt(50)), amt(0));
    assert_eq!(cover::capacity_amount(&amt(1_000), &amt(0)), amt(0));
    assert_eq!(cover::capacity_amount(&amt(1_000), &amt(100)), amt(1_000));
    assert_eq!(cover::capacity_amount(&amt(10), &amt(250)), amt(25));
}

#[test]
fn capacity_amount_does_not_overflow() {
    let tvl = Nat::from(u128::MAX);
    assert_eq!(cover::capacity_amount(&tvl, &amt(50)), Nat::from(u128::MAX / 2));
    let huge = Nat::from(u128::MAX) * Nat::from(u128::MAX);
    assert_eq!(cover::capacity_amount(&huge, &amt(100)), huge);
}

#[test]
fn scenario_capacity_then_purchases_until_capacity_runs_out() {
    let mut state = covers();
    assert_eq!(make_cover(&mut state, 1, 10, 1_000), Ok(()));
    let c = cover::get_cover_info(&state, &amt(1)).unwrap();
    assert_eq!(c.capacity_amount, amt(100));
    assert_eq!(c.max_amount, amt(100));
    assert_eq!(c.cover_values, amt(0));

    assert_eq!(cover::purchase_cover(&mut state, id(7), amt(1), amt(60), amt(30), true, 1_000), Ok(()));
    let c = cover::get_cover_info(&state, &amt(1)).unwrap();
    assert_eq!(c.max_amount, amt(40));
    assert_eq!(c.cover_values, amt(60));
    assert_eq!(c.capacity_amount, amt(100));

    assert_eq!(
        cover::purchase_cover(&mut state, id(7), amt(1), amt(50), amt(30), true, 1_000),
        Err(Error::InsufficientCapacity)
    );
    assert_eq!(Error::InsufficientCapacity.kind(), ErrorKind::InsufficientCapacity);
    let c = cover::get_cover_info(&state, &amt(1)).unwrap();
    assert_eq!(c.max_amount, amt(40));
    assert_eq!(c.cover_values, amt(60));

    assert_eq!(cover::purchase_cover(&mut state, id(8), amt(1), amt(40), amt(30), true, 1_000), Ok(()));
    let c = cover::get_cover_info(&state, &amt(1)).unwrap();
    assert_eq!(c.max_amount, amt(0));
    assert_eq!(c.cover_values, amt(100));
    assert_eq!(
        cover::purchase_cover(&mut state, id(8), amt(1), amt(1), amt(30), true, 1_000),
        Err(Error::InsufficientCapacity)
    );
}

#[test]
fn create_cover_stores_the_cover_as_given() {
    let mut state = covers();
    assert_eq!(
        cover::create_cover(
            &mut state,
            amt(5),
            "the cid".to_string(),
            RiskType::Protocol,
            "five".to_string(),
            "eth".to_string(),
            amt(25),
            amt(4),
            amt(9),
            Some(vec![listed(1, "one"), listed(2, "two")]),
            Some(pool_with(2_000, RiskType::Protocol)),
        ),
        Ok(())
    );
    let c = cover::get_cover_info(&state, &amt(5)).unwrap();
    assert_eq!(c.id, amt(5));
    assert_eq!(c.cid, "the cid");
    assert_eq!(c.risk_type, RiskType::Protocol);
    assert_eq!(c.cover_name, "five");
    assert_eq!(c.chains, "eth");
    assert_eq!(c.capacity, amt(25));
    assert_eq!(c.cost, amt(4));
    assert_eq!(c.pool_id, amt(9));
    assert_eq!(c.capacity_amount, amt(500));
    assert_eq!(c.max_amount, amt(500));
    assert_eq!(c.cover_values, amt(0));
    assert_eq!(state.cover_ids, vec![amt(5)]);
    assert_eq!(cover::get_cover_info(&state, &amt(6)).err(), Some(Error::CoverNotFound));
    let all = cover::get_all_available_covers(&state).unwrap();
    assert_eq!(all.len(), 1);
    assert_eq!(all[0].cover_name, "five");
}

#[test]
fn create_cover_refusals_change_nothing() {
    let mut state = covers();
    let attempt = |state: &mut cover::State, covers: Option<Vec<Cover>>, pool: Option<Pool>, name: &str, cid: u64| {
        cover::create_cover(
            state,
            amt(cid),
            "cid".to_string(),
            RiskType::Stablecoin,
            name.to_string(),
            "icp".to_string(),
            amt(10),
            amt(3),
            amt(1),
            covers,
            pool,
        )
    };
    let pool = || Some(pool_with(1_000, RiskType::Stablecoin));
    assert_eq!(attempt(&mut state, None, pool(), "x", 5), Err(Error::PoolCoversQueryFailed));
    assert_eq!(attempt(&mut state, None, None, "x", 5), Err(Error::PoolCoversQueryFailed));
    assert_eq!(attempt(&mut state, Some(vec![]), None, "x", 5), Err(Error::PoolQueryFailed));
    assert_eq!(Error::PoolQueryFailed.kind(), ErrorKind::DependencyFailure);
    assert_eq!(attempt(&mut state, Some(vec![listed(1, "x")]), pool(), "x", 5), Err(Error::CoverExists));
    assert_eq!(attempt(&mut state, Some(vec![listed(1, "a"), listed(5, "b")]), pool(), "x", 5), Err(Error::CoverExists));
    assert_eq!(
        attempt(&mut state, Some(vec![]), Some(pool_with(1_000, RiskType::Slashing)), "x", 5),
        Err(Error::RiskTypeMismatch)
    );
    assert_eq!(state.covers.len(), 0);
    assert_eq!(state.cover_ids.len(), 0);
    assert_eq!(attempt(&mut state, Some(vec![listed(1, "a"), listed(2, "b")]), pool(), "x", 5), Ok(()));
    assert_eq!(state.cover_ids, vec![amt(5)]);
}

#[test]
fn purchase_records_what_the_user_bought() {
    let mut state = covers();
    make_cover(&mut state, 1, 10, 1_000).unwrap();
    make_cover(&mut state, 2, 50, 1_000).unwrap();
    cover::purchase_cover(&mut state, id(7), amt(1), amt(60), amt(30), true, 1_000).unwrap();
    cover::purchase_cover(&mut state, id(7), amt(2), amt(5), amt(1), true, 2_000).unwrap();
    let info = cover::get_user_cover_info(&state, id(7), &amt(1)).unwrap();
    assert_eq!(info.user, id(7));
    assert_eq!(info.cover_id, amt(1));
    assert_eq!(info.risk_type, RiskType::Stablecoin);
    assert_eq!(info.cover_name, "cover 1");
    assert_eq!(info.cover_value, amt(60));
    assert_eq!(info.claim_paid, amt(0));
    assert_eq!(info.cover_period, amt(30));
    assert_eq!(info.end_day, amt(1_000 + 30 * 86_400));
    assert!(info.is_active);
    assert_eq!(cover::get_user_cover_info(&state, id(7), &amt(2)).unwrap().end_day, amt(2_000 + 86_400));
    assert_eq!(cover::get_user_cover_info(&state, id(7), &amt(3)).err(), Some(Error::UserCoverNotFound));
    assert_eq!(cover::get_user_cover_info(&state, id(8), &amt(1)).err(), Some(Error::UserCoversNotFound));
    assert_eq!(cover::get_all_participants(&state), Ok(vec![id(7)]));
    assert_eq!(cover::get_user_participation(&state, id(7)), Ok(amt(2)));
    assert_eq!(cover::get_user_participation(&state, id(8)), Err(Error::ParticipationNotFound));
}

#[test]
fn a_purchase_without_a_burned_premium_changes_nothing() {
    let mut state = covers();
    make_cover(&mut state, 1, 10, 1_000).unwrap();
    assert_eq!(
        cover::purchase_cover(&mut state, id(7), amt(1), amt(60), amt(30), false, 1_000),
        Err(Error::BurnFailed)
    );
    assert_eq!(
        cover::purchase_cover(&mut state, id(7), amt(9), amt(600), amt(30), false, 1_000),
        Err(Error::BurnFailed)
    );
    let c = cover::get_cover_info(&state, &amt(1)).unwrap();
    assert_eq!(c.cover_values, amt(0));
    assert_eq!(c.max_amount, amt(100));
    assert_eq!(cover::get_user_cover_info(&state, id(7), &amt(1)).err(), Some(Error::UserCoversNotFound));
    assert_eq!(cover::get_all_participants(&state), Ok(vec![]));
}

#[test]
fn a_purchase_of_a_missing_cover_is_refused() {
    let mut state = covers();
    assert_eq!(
        cover::purchase_cover(&mut state, id(7), amt(1), amt(60), amt(30), true, 1_000),
        Err(Error::CoverNotFound)
    );
    assert_eq!(cover::get_all_participants(&state), Ok(vec![]));
}

#[test]
fn a_second_purchase_of_a_cover_replaces_the_record() {
    let mut state = covers();
    make_cover(&mut state, 1, 10, 1_000).unwrap();
    cover::purchase_cover(&mut state, id(7), amt(1), amt(60), amt(30), true, 1_000).unwrap();
    cover::purchase_cover(&mut state, id(7), amt(1), amt(10), amt(2), true, 5_000).unwrap();
    let info = cover::get_user_cover_info(&state, id(7), &amt(1)).unwrap();
    assert_eq!(info.cover_value, amt(10));
    assert_eq!(info.end_day, amt(5_000 + 2 * 86_400));
    let c = cover::get_cover_info(&state, &amt(1)).unwrap();
    assert_eq!(c.cover_values, amt(70));
    assert_eq!(c.max_amount, amt(30));
}

#[test]
fn update_cover_recomputes_capacity_and_orders_the_split_adjustment() {
    let mut state = covers();
    make_cover(&mut state, 1, 10, 1_000).unwrap();
    cover::purchase_cover(&mut state, id(7), amt(1), amt(60), amt(30), true, 1_000).unwrap();
    let update = |state: &mut cover::State, capacity: u64, tvl: u64| {
        cover::update_cover(
            state,
            amt(1),
            "renamed".to_string(),
            RiskType::Stablecoin,
            "cid2".to_string(),
            "eth".to_string(),
            amt(capacity),
            amt(8),
            amt(1),
            Some(vec![listed(1, "cover 1")]),
            Some(pool_with(tvl, RiskType::Stablecoin)),
        )
    };
    // grows from 10 to 25 percent
    let adj = update(&mut state, 25, 2_000).unwrap();
    assert!(matches!(adj, SplitAdjustment::Reduce { pool_id, by } if pool_id == amt(1) && by == amt(15)));
    let c = cover::get_cover_info(&state, &amt(1)).unwrap();
    assert_eq!(c.cover_name, "renamed");
    assert_eq!(c.cid, "cid2");
    assert_eq!(c.chains, "eth");
    assert_eq!(c.cost, amt(8));
    assert_eq!(c.capacity, amt(25));
    assert_eq!(c.capacity_amount, amt(500));
    assert_eq!(c.cover_values, amt(60));
    assert_eq!(c.max_amount, amt(440));
    // shrinks from 25 to 5 percent
    let adj = update(&mut state, 5, 2_000).unwrap();
    assert!(matches!(adj, SplitAdjustment::Increase { pool_id, by } if pool_id == amt(1) && by == amt(20)));
    let c = cover::get_cover_info(&state, &amt(1)).unwrap();
    assert_eq!(c.capacity_amount, amt(100));
    assert_eq!(c.max_amount, amt(40));
    // stays: a reduction by nothing
    let adj = update(&mut state, 5, 2_000).unwrap();
    assert!(matches!(adj, SplitAdjustment::Reduce { pool_id, by } if pool_id == amt(1) && by == amt(0)));
    // would fall below what was bought
    assert_eq!(update(&mut state, 5, 1_000).err(), Some(Error::CapacityBelowPurchased));
    let c = cover::get_cover_info(&state, &amt(1)).unwrap();
    assert_eq!(c.capacity_amount, amt(100));
    assert_eq!(c.max_amount, amt(40));
    assert_eq!(c.capacity, amt(5));
    // exactly what was bought is still allowed
    assert!(update(&mut state, 5, 1_200).is_ok());
    let c = cover::get_cover_info(&state, &amt(1)).unwrap();
    assert_eq!(c.capacity_amount, amt(60));
    assert_eq!(c.max_amount, amt(0));
}

#[test]
fn update_cover_refusals() {
    let mut state = covers();
    make_cover(&mut state, 1, 10, 1_000).unwrap();
    let update = |state: &mut cover::State, cid: u64, name: &str, list: Option<Vec<Cover>>, pool: Option<Pool>| {
        cover::update_cover(
            state,
            amt(cid),
            name.to_string(),
            RiskType::Stablecoin,
            "cid".to_string(),
            "icp".to_string(),
            amt(10),
            amt(3),
            amt(1),
            list,
            pool,
        )
    };
    let pool = || Some(pool_with(1_000, RiskType::Stablecoin));
    assert_eq!(update(&mut state, 1, "x", None, pool()).err(), Some(Error::PoolCoversQueryFailed));
    assert_eq!(update(&mut state, 1, "x", Some(vec![]), None).err(), Some(Error::PoolQueryFailed));
    assert_eq!(update(&mut state, 1, "x", Some(vec![listed(2, "x")]), pool()).err(), Some(Error::CoverExists));
    assert_eq!(
        update(&mut state, 1, "x", Some(vec![listed(1, "cover 1"), listed(2, "y"), listed(3, "x")]), pool()).err(),
        Some(Error::CoverExists)
    );
    assert_eq!(
        update(&mut state, 1, "x", Some(vec![]), Some(pool_with(1_000, RiskType::Protocol))).err(),
        Some(Error::RiskTypeMismatch)
    );
    assert_eq!(update(&mut state, 2, "x", Some(vec![]), pool()).err(), Some(Error::CoverNotFound));
    assert_eq!(cover::get_cover_info(&state, &amt(1)).unwrap().cover_name, "cover 1");
    assert!(update(&mut state, 1, "x", Some(vec![listed(1, "old")]), pool()).is_ok());
    assert_eq!(cover::get_cover_info(&state, &amt(1)).unwrap().cover_name, "x");
}

#[test]
fn update_cover_works_in_a_pool_with_other_covers() {
    let mut state = covers();
    make_cover(&mut state, 1, 10, 1_000).unwrap();
    let update = |state: &mut cover::State, name: &str, capacity: u64, list: Vec<Cover>| {
        cover::update_cover(
            state,
            amt(1),
            name.to_string(),
            RiskType::Stablecoin,
            "cid".to_string(),
            "icp".to_string(),
            amt(capacity),
            amt(3),
            amt(1),
            Some(list),
            Some(pool_with(1_000, RiskType::Stablecoin)),
        )
    };
    // a rename with a second cover listed
    let adj = update(&mut state, "renamed", 10, vec![listed(1, "cover 1"), listed(2, "other")]).unwrap();
    assert!(matches!(adj, SplitAdjustment::Reduce { pool_id, by } if pool_id == amt(1) && by == amt(0)));
    assert_eq!(cover::get_cover_info(&state, &amt(1)).unwrap().cover_name, "renamed");
    // a resize that keeps the name, listed under that name
    let adj = update(&mut state, "renamed", 30, vec![listed(2, "other"), listed(1, "renamed"), listed(3, "third")])
        .unwrap();
    assert!(matches!(adj, SplitAdjustment::Reduce { pool_id, by } if pool_id == amt(1) && by == amt(20)));
    let c = cover::get_cover_info(&state, &amt(1)).unwrap();
    assert_eq!(c.cover_name, "renamed");
    assert_eq!(c.capacity, amt(30));
    assert_eq!(c.capacity_amount, amt(300));
    assert_eq!(c.max_amount, amt(300));
    assert_eq!(c.cover_values, amt(0));
    // the name of another cover is taken
    assert_eq!(
        update(&mut state, "other", 30, vec![listed(1, "renamed"), listed(2, "other")]).err(),
        Some(Error::CoverExists)
    );
    assert_eq!(cover::get_cover_info(&state, &amt(1)).unwrap().cover_name, "renamed");
    // the cover's own entry under the new name does not count
    assert!(update(&mut state, "fresh", 30, vec![listed(1, "fresh")]).is_ok());
}

#[test]
fn update_user_cover_value_books_a_claim() {
    let mut state = covers();
    make_cover(&mut state, 1, 10, 1_000).unwrap();
    cover::purchase_cover(&mut state, id(7), amt(1), amt(60), amt(30), true, 1_000).unwrap();
    assert_eq!(cover::update_user_cover_value(&mut state, id(7), amt(1), amt(25)), Ok(()));
    let info = cover::get_user_cover_info(&state, id(7), &amt(1)).unwrap();
    assert_eq!(info.cover_value, amt(35));
    assert_eq!(info.claim_paid, amt(25));
    assert_eq!(cover::update_user_cover_value(&mut state, id(7), amt(1), amt(36)), Err(Error::ClaimExceedsCover));
    assert_eq!(cover::update_user_cover_value(&mut state, id(7), amt(2), amt(1)), Err(Error::UserCoverNotFound));
    assert_eq!(cover::update_user_cover_value(&mut state, id(8), amt(1), amt(1)), Err(Error::UserCoversNotFound));
    assert_eq!(cover::update_user_cover_value(&mut state, id(7), amt(1), amt(35)), Ok(()));
    let info = cover::get_user_cover_info(&state, id(7), &amt(1)).unwrap();
    assert_eq!(info.cover_value, amt(0));
    assert_eq!(info.claim_paid, amt(60));
}

#[test]
fn user_covers_without_value_are_not_listed() {
    let mut state = covers();
    make_cover(&mut state, 1, 10, 1_000).unwrap();
    make_cover(&mut state, 2, 10, 1_000).unwrap();
    make_cover(&mut state, 3, 10, 1_000).unwrap();
    cover::purchase_cover(&mut state, id(7), amt(1), amt(60), amt(30), true, 1_000).unwrap();
    cover::purchase_cover(&mut state, id(7), amt(2), amt(0), amt(30), true, 1_000).unwrap();
    cover::purchase_cover(&mut state, id(7), amt(3), amt(5), amt(30), true, 1_000).unwrap();
    let list = cover::get_all_user_covers(&state, id(7)).unwrap();
    assert_eq!(list.len(), 2);
    assert_eq!(list[0].cover_id, amt(1));
    assert_eq!(list[1].cover_id, amt(3));
    cover::update_user_cover_value(&mut state, id(7), amt(1), amt(60)).unwrap();
    let list = cover::get_all_user_covers(&state, id(7)).unwrap();
    assert_eq!(list.len(), 1);
    assert_eq!(list[0].cover_id, amt(3));
    assert_eq!(cover::get_all_user_covers(&state, id(8)).err(), Some(Error::UserCoversNotFound));
}

#[test]
fn expired_covers_are_swept_and_a_second_sweep_changes_nothing() {
    let mut state = covers();
    make_cover(&mut state, 1, 10, 1_000).unwrap();
    make_cover(&mut state, 2, 10, 1_000).unwrap();
    make_cover(&mut state, 3, 10, 1_000).unwrap();
    cover::purchase_cover(&mut state, id(7), amt(1), amt(10), amt(1), true, 0).unwrap();
    cover::purchase_cover(&mut state, id(7), amt(2), amt(10), amt(3), true, 0).unwrap();
    cover::purchase_cover(&mut state, id(7), amt(3), amt(10), amt(2), true, 0).unwrap();
    // at the very end of cover 1 nothing has run out
    assert_eq!(cover::delete_expired_user_covers(&mut state, id(7), 86_400), Ok(()));
    assert_eq!(state.user_covers.get(&id(7)).unwrap().len(), 3);
    // two days and a second: covers 1 and 3 have run out
    let now = 2 * 86_400 + 1;
    assert_eq!(cover::delete_expired_user_covers(&mut state, id(7), now), Ok(()));
    let left = cover::get_all_user_covers(&state, id(7)).unwrap();
    assert_eq!(left.len(), 1);
    assert_eq!(left[0].cover_id, amt(2));
    assert!(left[0].is_active);
    assert_eq!(cover::get_user_cover_info(&state, id(7), &amt(1)).err(), Some(Error::UserCoverNotFound));
    // again
    assert_eq!(cover::delete_expired_user_covers(&mut state, id(7), now), Ok(()));
    let again = cover::get_all_user_covers(&state, id(7)).unwrap();
    assert_eq!(again.len(), 1);
    assert_eq!(again[0].cover_id, amt(2));
    assert_eq!(state.user_covers.get(&id(7)).unwrap().len(), 1);
    // covers themselves are untouched
    assert_eq!(cover::get_cover_info(&state, &amt(1)).unwrap().cover_values, amt(10));
    assert_eq!(cover::delete_expired_user_covers(&mut state, id(8), now), Err(Error::UserCoversNotFound));
}

#[test]
fn sweep_spares_inactive_covers_and_takes_expired_ones_of_any_id() {
    let mut state = covers();
    make_cover(&mut state, 1, 10, 1_000).unwrap();
    cover::purchase_cover(&mut state, id(7), amt(1), amt(10), amt(1), true, 0).unwrap();
    state.user_covers.get_mut(&id(7)).unwrap().get_mut(&amt(1)).unwrap().is_active = false;
    let stray = |cover_id: u64, end: u64| GenericCoverInfo {
        user: id(7),
        cover_id: amt(cover_id),
        risk_type: RiskType::Slashing,
        cover_name: "stray".to_string(),
        cover_value: amt(1),
        claim_paid: amt(0),
        cover_period: amt(1),
        end_day: amt(end),
        is_active: true,
    };
    // ids that no cover on offer has
    state.user_covers.get_mut(&id(7)).unwrap().insert(amt(44), stray(44, 5));
    state.user_covers.get_mut(&id(7)).unwrap().insert(amt(45), stray(45, 20 * 86_400));
    assert_eq!(cover::delete_expired_user_covers(&mut state, id(7), 10 * 86_400), Ok(()));
    let left = state.user_covers.get(&id(7)).unwrap();
    assert_eq!(left.len(), 2);
    assert!(left.get(&amt(1)).is_some());
    assert!(left.get(&amt(44)).is_none());
    assert_eq!(left.get(&amt(45)).unwrap().end_day, amt(20 * 86_400));
}

#[test]
fn sweep_works_without_any_cover_on_offer() {
    let mut state = covers();
    let mut bought = AssocMap::new();
    bought.insert(
        amt(5),
        GenericCoverInfo {
            user: id(7),
            cover_id: amt(5),
            risk_type: RiskType::Slashing,
            cover_name: "five".to_string(),
            cover_value: amt(1),
            claim_paid: amt(0),
            cover_period: amt(1),
            end_day: amt(10),
            is_active: true,
        },
    );
    state.user_covers.insert(id(7), bought);
    assert_eq!(cover::delete_expired_user_covers(&mut state, id(7), 10), Ok(()));
    assert_eq!(state.user_covers.get(&id(7)).unwrap().len(), 1);
    assert_eq!(cover::delete_expired_user_covers(&mut state, id(7), 20), Ok(()));
    assert_eq!(state.user_covers.get(&id(7)).unwrap().len(), 0);
    assert_eq!(cover::get_all_user_covers(&state, id(7)).unwrap().len(), 0);
}

#[test]
fn sweep_leaves_other_users_alone() {
    let mut state = covers();
    make_cover(&mut state, 1, 10, 1_000).unwrap();
    cover::purchase_cover(&mut state, id(7), amt(1), amt(10), amt(1), true, 0).unwrap();
    cover::purchase_cover(&mut state, id(8), amt(1), amt(10), amt(1), true, 0).unwrap();
    assert_eq!(cover::delete_expired_user_covers(&mut state, id(7), 10 * 86_400), Ok(()));
    assert_eq!(state.user_covers.get(&id(7)).unwrap().len(), 0);
    assert_eq!(state.user_covers.get(&id(8)).unwrap().len(), 1);
    assert_eq!(cover::get_cover_info(&state, &amt(1)).unwrap().cover_values, amt(20));
}

#[test]
fn update_max_amount_follows_the_pool_value() {
    let mut state = covers();
    make_cover(&mut state, 1, 10, 1_000).unwrap();
    cover::purchase_cover(&mut state, id(7), amt(1), amt(60), amt(30), true, 1_000).unwrap();
    assert_eq!(cover::update_max_amount_target(&state, &amt(1)), Ok((id(POOL), amt(1))));
    assert_eq!(
        cover::update_max_amount(&mut state, amt(1), Some(pool_with(800, RiskType::Stablecoin))),
        Ok(())
    );
    let c = cover::get_cover_info(&state, &amt(1)).unwrap();
    assert_eq!(c.capacity_amount, amt(80));
    assert_eq!(c.max_amount, amt(20));
    assert_eq!(c.cover_values, amt(60));
    // the pool sank below what was bought: the cover stays as it is
    assert_eq!(
        cover::update_max_amount(&mut state, amt(1), Some(pool_with(599, RiskType::Stablecoin))),
        Err(Error::CapacityBelowPurchased)
    );
    let c = cover::get_cover_info(&state, &amt(1)).unwrap();
    assert_eq!(c.capacity_amount, amt(80));
    assert_eq!(c.max_amount, amt(20));
    assert_eq!(cover::update_max_amount(&mut state, amt(1), None), Err(Error::PoolQueryFailed));
    assert_eq!(
        cover::update_max_amount(&mut state, amt(2), Some(pool_with(800, RiskType::Stablecoin))),
        Err(Error::CoverNotFound)
    );
}

#[test]
fn update_max_amount_needs_a_capacity() {
    let mut state = covers();
    make_cover(&mut state, 1, 0, 1_000).unwrap();
    assert_eq!(cover::update_max_amount_target(&state, &amt(1)), Err(Error::InvalidCapacity));
    assert_eq!(cover::update_max_amount_target(&state, &amt(2)), Err(Error::CoverNotFound));
    assert_eq!(
        cover::update_max_amount(&mut state, amt(1), Some(pool_with(800, RiskType::Stablecoin))),
        Err(Error::InvalidCapacity)
    );
    assert_eq!(cover::update_max_amount(&mut state, amt(1), None), Err(Error::InvalidCapacity));
    state.lp_contract = None;
    assert_eq!(cover::update_max_amount_target(&state, &amt(1)), Err(Error::PoolContractNotSet));
}

#[test]
fn lp_payout_counts_whole_days_since_the_start() {
    let state = covers();
    let d = deposit(Status::Active, 1_000, 1_000 + 30 * 86_400, 13);
    let payout = cover::lp_payout_quote(&state, id(7), &amt(1), Some(d), 1_000 + 3 * 86_400 + 500).unwrap();
    assert_eq!(payout.amount, amt(39));
    assert_eq!(payout.claim_time, amt(1_000 + 3 * 86_400 + 500));
    assert_eq!(payout.ledger, id(LEDGER));
}

#[test]
fn lp_payout_stops_at_the_end_of_the_lock() {
    let state = covers();
    let d = deposit(Status::Active, 1_000, 1_000 + 2 * 86_400, 13);
    let payout = cover::lp_payout_quote(&state, id(7), &amt(1), Some(d), 1_000 + 10 * 86_400).unwrap();
    assert_eq!(payout.amount, amt(26));
    assert_eq!(payout.claim_time, amt(1_000 + 2 * 86_400));
}

#[test]
fn lp_payout_counts_from_the_last_claim() {
    let mut state = covers();
    let start = 1_000;
    let expiry = start + 30 * 86_400;
    let first = start + 86_400 + 10;
    assert_eq!(cover::get_last_claim_time(&state, id(7), &amt(1)), Err(Error::ClaimTimeNotFound));
    let payout =
        cover::lp_payout_quote(&state, id(7), &amt(1), Some(deposit(Status::Active, start, expiry, 13)), first).unwrap();
    assert_eq!(payout.amount, amt(13));
    assert_eq!(
        cover::claim_payout_for_lp(&mut state, id(7), amt(1), payout.claim_time.clone(), false),
        Err(Error::MintFailed)
    );
    assert_eq!(cover::get_last_claim_time(&state, id(7), &amt(1)), Err(Error::ClaimTimeNotFound));
    assert_eq!(cover::claim_payout_for_lp(&mut state, id(7), amt(1), payout.claim_time, true), Ok(()));
    assert_eq!(cover::get_last_claim_time(&state, id(7), &amt(1)), Ok(amt(first)));
    assert_eq!(cover::get_last_claim_time(&state, id(7), &amt(2)), Err(Error::ClaimTimeNotFound));
    // less than a day later
    assert_eq!(
        cover::lp_payout_quote(
            &state,
            id(7),
            &amt(1),
            Some(deposit(Status::Active, start, expiry, 13)),
            first + 86_399
        )
        .err(),
        Some(Error::NoClaimableReward)
    );
    // two days later
    let payout = cover::lp_payout_quote(
        &state,
        id(7),
        &amt(1),
        Some(deposit(Status::Active, start, expiry, 13)),
        first + 2 * 86_400,
    )
    .unwrap();
    assert_eq!(payout.amount, amt(26));
    // another pool counts from the start of the deposit
    let other = cover::lp_payout_quote(
        &state,
        id(7),
        &amt(2),
        Some(deposit(Status::Active, start, expiry, 13)),
        first + 2 * 86_400,
    )
    .unwrap();
    assert_eq!(other.amount, amt(39));
    // a second claim on the same pool moves the record
    assert_eq!(cover::claim_payout_for_lp(&mut state, id(7), amt(1), amt(first + 2 * 86_400), true), Ok(()));
    assert_eq!(cover::claim_payout_for_lp(&mut state, id(7), amt(2), amt(5), true), Ok(()));
    assert_eq!(cover::get_last_claim_time(&state, id(7), &amt(1)), Ok(amt(first + 2 * 86_400)));
    assert_eq!(cover::get_last_claim_time(&state, id(7), &amt(2)), Ok(amt(5)));
}

#[test]
fn lp_payout_refusals() {
    let mut state = covers();
    let d = || Some(deposit(Status::Active, 1_000, 1_000 + 30 * 86_400, 13));
    assert_eq!(cover::lp_payout_quote(&state, id(7), &amt(1), None, 500_000).err(), Some(Error::DepositQueryFailed));
    assert_eq!(
        cover::lp_payout_quote(
            &state,
            id(7),
            &amt(1),
            Some(deposit(Status::Withdrawn, 1_000, 1_000 + 30 * 86_400, 13)),
            500_000
        )
        .err(),
        Some(Error::DepositNotActive)
    );
    assert_eq!(cover::lp_payout_quote(&state, id(7), &amt(1), d(), 1_000).err(), Some(Error::NoClaimableReward));
    // a time before the start counts as no day
    assert_eq!(cover::lp_payout_quote(&state, id(7), &amt(1), d(), 10).err(), Some(Error::NoClaimableReward));
    state.bqbtc_address = None;
    assert_eq!(cover::lp_payout_quote(&state, id(7), &amt(1), d(), 500_000).err(), Some(Error::LedgerNotSet));
    state.lp_contract = None;
    assert_eq!(cover::lp_payout_quote(&state, id(7), &amt(1), d(), 500_000).err(), Some(Error::PoolContractNotSet));
}

#[test]
fn claimable_days_are_reported_without_checks_on_the_deposit() {
    let mut state = covers();
    let d = || Some(deposit(Status::Withdrawn, 1_000, 1_000 + 5 * 86_400, 13));
    assert_eq!(cover::get_deposit_claimable_days(&state, id(7), &amt(1), d(), 1_000 + 3 * 86_400), Ok(amt(3)));
    assert_eq!(cover::get_deposit_claimable_days(&state, id(7), &amt(1), d(), 1_000 + 9 * 86_400), Ok(amt(5)));
    assert_eq!(cover::get_deposit_claimable_days(&state, id(7), &amt(1), d(), 1_000), Ok(amt(0)));
    assert_eq!(cover::get_deposit_claimable_days(&state, id(7), &amt(1), d(), 0), Ok(amt(0)));
    assert_eq!(
        cover::get_deposit_claimable_days(&state, id(7), &amt(1), None, 0),
        Err(Error::DepositQueryFailed)
    );
    cover::claim_payout_for_lp(&mut state, id(7), amt(1), amt(1_000 + 2 * 86_400), true).unwrap();
    assert_eq!(cover::get_deposit_claimable_days(&state, id(7), &amt(1), d(), 1_000 + 3 * 86_400), Ok(amt(1)));
    state.lp_contract = None;
    assert_eq!(
        cover::get_deposit_claimable_days(&state, id(7), &amt(1), d(), 0),
        Err(Error::PoolContractNotSet)
    );
}

#[test]
fn accrued_days_round_down() {
    assert_eq!(cover::accrued_days(&amt(0), &amt(1_000_000), 86_399), (amt(0), amt(86_399)));
    assert_eq!(cover::accrued_days(&amt(0), &amt(1_000_000), 86_400), (amt(1), amt(86_400)));
    assert_eq!(cover::accrued_days(&amt(0), &amt(100_000), 500_000), (amt(1), amt(100_000)));
    assert_eq!(cover::accrued_days(&amt(200_000), &amt(100_000), 500_000), (amt(0), amt(100_000)));
}
