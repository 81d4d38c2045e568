//! The cover manager.
//!
//! It owns the covers and what each user has bought of them. A cover's
//! capacity is a share of its pool's value, so creating, resizing and
//! recomputing a cover need the pool as the pool actor reports it; the
//! functions here take that report, already fetched, as an argument.

use candid::{Nat, Principal};
use vstd::prelude::*;

use crate::assoc::{lemma_insert_same, lists_values, AssocMap};
use crate::error::Error;
use crate::model::Model;
use crate::natural::{nat_add, nat_div, nat_eq, nat_from_u64, nat_lt, nat_mul, nat_sub, val};
use crate::participation::{counted, noted, record_participation};
use crate::types::{
    Cover, CoverModel, Deposit, DepositModel, GenericCoverInfo, GenericCoverInfoModel, Pool,
    PoolModel, RiskType, Status,
};

verus! {

/// The scale of the fixed-point intermediate in a capacity computation.
pub const PRECISION: u64 = 1_000_000_000_000_000_000;

/// Everything the cover manager keeps.
#[derive(Debug)]
pub struct State {
    /// The covers, by id.
    pub covers: AssocMap<Nat, Cover>,
    /// A counter of covers.
    pub cover_count: Nat,
    /// The owner.
    pub owner: Option<Principal>,
    /// The ledger.
    pub bqbtc_address: Option<Principal>,
    /// The pool actor.
    pub lp_contract: Option<Principal>,
    /// The governance actor.
    pub gov_address: Option<Principal>,
    /// Who has bought cover, in order of first purchase.
    pub participants: Vec<Principal>,
    /// How many purchases each participant made.
    pub participation: AssocMap<Principal, Nat>,
    /// What each user has bought, by cover id.
    pub user_covers: AssocMap<Principal, AssocMap<Nat, GenericCoverInfo>>,
    /// When each provider last claimed a payout from each pool.
    pub lp_claims: AssocMap<Principal, AssocMap<Nat, Nat>>,
    /// The ids of the covers created, in order of creation.
    pub cover_ids: Vec<Nat>,
}

/// What a [`State`] stands for.
pub struct StateModel {
    pub covers: Map<nat, CoverModel>,
    pub cover_count: nat,
    pub owner: Option<Principal>,
    pub bqbtc_address: Option<Principal>,
    pub lp_contract: Option<Principal>,
    pub gov_address: Option<Principal>,
    pub participants: Seq<Principal>,
    pub participation: Map<Principal, nat>,
    pub user_covers: Map<Principal, Map<nat, GenericCoverInfoModel>>,
    pub lp_claims: Map<Principal, Map<nat, nat>>,
    pub cover_ids: Seq<nat>,
}

impl Model for State {
    type M = StateModel;

    open spec fn model(&self) -> StateModel {
        StateModel {
            covers: self.covers.model(),
            cover_count: self.cover_count.model(),
            owner: self.owner.model(),
            bqbtc_address: self.bqbtc_address.model(),
            lp_contract: self.lp_contract.model(),
            gov_address: self.gov_address.model(),
            participants: self.participants.model(),
            participation: self.participation.model(),
            user_covers: self.user_covers.model(),
            lp_claims: self.lp_claims.model(),
            cover_ids: self.cover_ids.model(),
        }
    }

    fn duplicate(&self) -> (r: Self) {
        State {
            covers: self.covers.duplicate(),
            cover_count: self.cover_count.duplicate(),
            owner: self.owner.duplicate(),
            bqbtc_address: self.bqbtc_address.duplicate(),
            lp_contract: self.lp_contract.duplicate(),
            gov_address: self.gov_address.duplicate(),
            participants: self.participants.duplicate(),
            participation: self.participation.duplicate(),
            user_covers: self.user_covers.duplicate(),
            lp_claims: self.lp_claims.duplicate(),
            cover_ids: self.cover_ids.duplicate(),
        }
    }
}

impl Clone for State {
    fn clone(&self) -> (r: Self)
        ensures
            r.model() == self.model(),
    {
        self.duplicate()
    }
}

/// How a pool's percentage split is to follow a cover's change of capacity.
#[derive(Debug)]
pub enum SplitAdjustment {
    /// The cover shrank: the pool gets `by` percent back.
    Increase { pool_id: Nat, by: Nat },
    /// The cover grew or stayed: the pool gives `by` percent.
    Reduce { pool_id: Nat, by: Nat },
}

/// What a [`SplitAdjustment`] stands for.
pub enum SplitAdjustmentModel {
    Increase { pool_id: nat, by: nat },
    Reduce { pool_id: nat, by: nat },
}

impl Model for SplitAdjustment {
    type M = SplitAdjustmentModel;

    open spec fn model(&self) -> SplitAdjustmentModel {
        match self {
            SplitAdjustment::Increase { pool_id, by } => SplitAdjustmentModel::Increase {
                pool_id: pool_id.model(),
                by: by.model(),
            },
            SplitAdjustment::Reduce { pool_id, by } => SplitAdjustmentModel::Reduce {
                pool_id: pool_id.model(),
                by: by.model(),
            },
        }
    }

    fn duplicate(&self) -> (r: Self) {
        match self {
            SplitAdjustment::Increase { pool_id, by } => SplitAdjustment::Increase {
                pool_id: pool_id.duplicate(),
                by: by.duplicate(),
            },
            SplitAdjustment::Reduce { pool_id, by } => SplitAdjustment::Reduce {
                pool_id: pool_id.duplicate(),
                by: by.duplicate(),
            },
        }
    }
}

/// A payout of yield that a liquidity provider may claim.
#[derive(Debug)]
pub struct LpPayout {
    /// The ledger that is to mint it.
    pub ledger: Principal,
    /// The amount: the daily payout times the whole days accrued.
    pub amount: Nat,
    /// The time up to which the payout counts, in seconds.
    pub claim_time: Nat,
}

/// What an [`LpPayout`] stands for.
pub struct LpPayoutModel {
    pub ledger: Principal,
    pub amount: nat,
    pub claim_time: nat,
}

impl Model for LpPayout {
    type M = LpPayoutModel;

    open spec fn model(&self) -> LpPayoutModel {
        LpPayoutModel {
            ledger: self.ledger,
            amount: self.amount.model(),
            claim_time: self.claim_time.model(),
        }
    }

    fn duplicate(&self) -> (r: Self) {
        LpPayout {
            ledger: self.ledger,
            amount: self.amount.duplicate(),
            claim_time: self.claim_time.duplicate(),
        }
    }
}

/// The capacity of a cover as an amount: `capacity` percent of `tvl`,
/// computed through a fixed-point intermediate of scale [`PRECISION`].
pub open spec fn capacity_amount_of(tvl: nat, capacity: nat) -> nat {
    tvl * (capacity * (PRECISION as nat) / 100) / (PRECISION as nat)
}

/// Whether a cover's books balance: no more was bought than the capacity
/// allows, and what can still be bought is the capacity less what was bought.
pub open spec fn cover_sound(c: CoverModel) -> bool {
    &&& c.cover_values <= c.capacity_amount
    &&& c.max_amount == c.capacity_amount - c.cover_values
}

/// Whether a cover has this id or this name.
pub open spec fn clashes_with(c: CoverModel, cover_id: nat, cover_name: Seq<char>) -> bool {
    c.cover_name == cover_name || c.id == cover_id
}

/// Whether a pool already has a cover that a new cover of this id and name
/// would clash with: one of the same id, or of the same name.
pub open spec fn clashes(covers: Seq<CoverModel>, cover_id: nat, cover_name: Seq<char>) -> bool {
    exists|i: int| 0 <= i < covers.len() && clashes_with(#[trigger] covers[i], cover_id, cover_name)
}

/// Whether a cover is another cover than the one of this id and has this
/// name.
pub open spec fn blocks(c: CoverModel, cover_id: nat, cover_name: Seq<char>) -> bool {
    c.id != cover_id && c.cover_name == cover_name
}

/// Whether a pool's covers stand in the way of updating the cover of this id
/// to this name: another cover of the pool has the name already. The cover
/// itself never stands in its own way, so it may keep its name, and a pool may
/// hold any number of other covers under other names.
pub open spec fn blocks_update(covers: Seq<CoverModel>, cover_id: nat, cover_name: Seq<char>) -> bool {
    exists|i: int| 0 <= i < covers.len() && blocks(#[trigger] covers[i], cover_id, cover_name)
}

/// Whether a cover has run out by `now`: it is active and its end lies
/// before `now`.
pub open spec fn expired(info: GenericCoverInfoModel, now: nat) -> bool {
    info.is_active && info.end_day < now
}

/// What is left of a user's covers after those that have run out by `now`
/// were swept. Every cover that has not run out stays, and stays as it is.
pub open spec fn swept(covers: Map<nat, GenericCoverInfoModel>, now: nat) -> Map<
    nat,
    GenericCoverInfoModel,
> {
    Map::new(|id: nat| covers.contains_key(id) && !expired(covers[id], now), |id: nat| covers[id])
}

/// What is left of a user's covers once those among `ids` have been looked
/// at, and dropped where they had run out.
spec fn swept_among(covers: Map<nat, GenericCoverInfoModel>, ids: Seq<nat>, now: nat) -> Map<
    nat,
    GenericCoverInfoModel,
> {
    Map::new(
        |id: nat| covers.contains_key(id) && !(ids.contains(id) && expired(covers[id], now)),
        |id: nat| covers[id],
    )
}

/// The whole days of payout accrued since `last_claim`, counted up to `now`
/// or to the deposit's `expiry`, whichever comes first.
pub open spec fn claimable_days(last_claim: nat, expiry: nat, now: nat) -> nat {
    let current = if now > expiry {
        expiry
    } else {
        now
    };
    if current < last_claim {
        0
    } else {
        ((current - last_claim) / 86400) as nat
    }
}

/// The time up to which a payout claimed at `now` counts.
pub open spec fn claim_time(expiry: nat, now: nat) -> nat {
    if now > expiry {
        expiry
    } else {
        now
    }
}

impl StateModel {
    /// The state of a cover manager that has done nothing yet.
    pub open spec fn initial() -> StateModel {
        StateModel {
            covers: Map::empty(),
            cover_count: 0,
            owner: None,
            bqbtc_address: None,
            lp_contract: None,
            gov_address: None,
            participants: Seq::empty(),
            participation: Map::empty(),
            user_covers: Map::empty(),
            lp_claims: Map::empty(),
            cover_ids: Seq::empty(),
        }
    }

    /// The books of every cover balance.
    pub open spec fn covers_sound(self) -> bool {
        forall|id: nat| #[trigger] self.covers.contains_key(id) ==> cover_sound(self.covers[id])
    }

    /// The state after [`init`].
    pub open spec fn init(
        self,
        lp_contract: Principal,
        initial_owner: Principal,
        governance: Principal,
        bqbtc: Principal,
    ) -> StateModel {
        StateModel {
            lp_contract: Some(lp_contract),
            owner: Some(initial_owner),
            gov_address: Some(governance),
            bqbtc_address: Some(bqbtc),
            ..self
        }
    }

    /// The state after [`create_cover`], and what it returns. A call that is
    /// refused leaves the state as it was.
    pub open spec fn create_cover(
        self,
        cover_id: nat,
        cid: Seq<char>,
        risk_type: RiskType,
        cover_name: Seq<char>,
        chains: Seq<char>,
        capacity: nat,
        cost: nat,
        pool_id: nat,
        pool_covers: Option<Seq<CoverModel>>,
        pool: Option<PoolModel>,
    ) -> (StateModel, Result<(), Error>) {
        if pool_covers is None {
            (self, Err(Error::PoolCoversQueryFailed))
        } else if pool is None {
            (self, Err(Error::PoolQueryFailed))
        } else if clashes(pool_covers->0, cover_id, cover_name) {
            (self, Err(Error::CoverExists))
        } else if risk_type != pool->0.risk_type {
            (self, Err(Error::RiskTypeMismatch))
        } else {
            let amount = capacity_amount_of(pool->0.tvl, capacity);
            (
                StateModel {
                    covers: self.covers.insert(
                        cover_id,
                        CoverModel {
                            id: cover_id,
                            cover_name,
                            risk_type,
                            chains,
                            capacity,
                            cost,
                            capacity_amount: amount,
                            cover_values: 0,
                            max_amount: amount,
                            pool_id,
                            cid,
                        },
                    ),
                    cover_ids: self.cover_ids.push(cover_id),
                    ..self
                },
                Ok(()),
            )
        }
    }

    /// Why an update of a cover is refused, if it is.
    pub open spec fn update_refusal(
        self,
        cover_id: nat,
        cover_name: Seq<char>,
        risk_type: RiskType,
        capacity: nat,
        pool_covers: Option<Seq<CoverModel>>,
        pool: Option<PoolModel>,
    ) -> Option<Error> {
        if pool_covers is None {
            Some(Error::PoolCoversQueryFailed)
        } else if pool is None {
            Some(Error::PoolQueryFailed)
        } else if blocks_update(pool_covers->0, cover_id, cover_name) {
            Some(Error::CoverExists)
        } else if risk_type != pool->0.risk_type {
            Some(Error::RiskTypeMismatch)
        } else if !self.covers.contains_key(cover_id) {
            Some(Error::CoverNotFound)
        } else if self.covers[cover_id].cover_values > capacity_amount_of(pool->0.tvl, capacity) {
            Some(Error::CapacityBelowPurchased)
        } else {
            None
        }
    }

    /// The state after [`update_cover`], and what it returns. A call that is
    /// refused leaves the state as it was.
    pub open spec fn update_cover(
        self,
        cover_id: nat,
        cover_name: Seq<char>,
        risk_type: RiskType,
        cid: Seq<char>,
        chains: Seq<char>,
        capacity: nat,
        cost: nat,
        pool_id: nat,
        pool_covers: Option<Seq<CoverModel>>,
        pool: Option<PoolModel>,
    ) -> (StateModel, Result<SplitAdjustmentModel, Error>) {
        match self.update_refusal(cover_id, cover_name, risk_type, capacity, pool_covers, pool) {
            Some(e) => (self, Err(e)),
            None => {
                let before = self.covers[cover_id];
                let amount = capacity_amount_of(pool->0.tvl, capacity);
                (
                    StateModel {
                        covers: self.covers.insert(
                            cover_id,
                            CoverModel {
                                cover_name,
                                risk_type,
                                chains,
                                capacity,
                                cost,
                                cid,
                                capacity_amount: amount,
                                max_amount: (amount - before.cover_values) as nat,
                                ..before
                            },
                        ),
                        ..self
                    },
                    Ok(
                        if before.capacity > capacity {
                            SplitAdjustmentModel::Increase {
                                pool_id,
                                by: (before.capacity - capacity) as nat,
                            }
                        } else {
                            SplitAdjustmentModel::Reduce {
                                pool_id,
                                by: (capacity - before.capacity) as nat,
                            }
                        },
                    ),
                )
            },
        }
    }

    /// What a user has bought so far, or nothing.
    pub open spec fn covers_of(self, user: Principal) -> Map<nat, GenericCoverInfoModel> {
        if self.user_covers.contains_key(user) {
            self.user_covers[user]
        } else {
            Map::empty()
        }
    }

    /// The state after [`purchase_cover`], and what it returns. A call that is
    /// refused leaves the state as it was.
    pub open spec fn purchase_cover(
        self,
        caller: Principal,
        cover_id: nat,
        cover_value: nat,
        cover_period: nat,
        burned: bool,
        now: nat,
    ) -> (StateModel, Result<(), Error>) {
        if !burned {
            (self, Err(Error::BurnFailed))
        } else if !self.covers.contains_key(cover_id) {
            (self, Err(Error::CoverNotFound))
        } else if cover_value > self.covers[cover_id].max_amount {
            (self, Err(Error::InsufficientCapacity))
        } else {
            let cover = self.covers[cover_id];
            (
                StateModel {
                    covers: self.covers.insert(
                        cover_id,
                        CoverModel {
                            cover_values: cover.cover_values + cover_value,
                            max_amount: (cover.max_amount - cover_value) as nat,
                            ..cover
                        },
                    ),
                    user_covers: self.user_covers.insert(
                        caller,
                        self.covers_of(caller).insert(
                            cover_id,
                            GenericCoverInfoModel {
                                user: caller,
                                cover_id,
                                risk_type: cover.risk_type,
                                cover_name: cover.cover_name,
                                cover_value,
                                claim_paid: 0,
                                cover_period,
                                end_day: now + cover_period * 86400,
                                is_active: true,
                            },
                        ),
                    ),
                    participants: noted(self.participants, caller),
                    participation: counted(self.participation, caller),
                    ..self
                },
                Ok(()),
            )
        }
    }

    /// The state after [`update_user_cover_value`], and what it returns. A call that is
    /// refused leaves the state as it was.
    pub open spec fn update_user_cover_value(self, user: Principal, cover_id: nat, claim_paid: nat) -> (
        StateModel,
        Result<(), Error>,
    ) {
        if !self.user_covers.contains_key(user) {
            (self, Err(Error::UserCoversNotFound))
        } else if !self.user_covers[user].contains_key(cover_id) {
            (self, Err(Error::UserCoverNotFound))
        } else if claim_paid > self.user_covers[user][cover_id].cover_value {
            (self, Err(Error::ClaimExceedsCover))
        } else {
            let info = self.user_covers[user][cover_id];
            (
                StateModel {
                    user_covers: self.user_covers.insert(
                        user,
                        self.user_covers[user].insert(
                            cover_id,
                            GenericCoverInfoModel {
                                cover_value: (info.cover_value - claim_paid) as nat,
                                claim_paid: info.claim_paid + claim_paid,
                                ..info
                            },
                        ),
                    ),
                    ..self
                },
                Ok(()),
            )
        }
    }

    /// When `user` last claimed a payout from pool `pool_id`; failing that,
    /// `start`.
    pub open spec fn last_claim(self, user: Principal, pool_id: nat, start: nat) -> nat {
        if self.lp_claims.contains_key(user) && self.lp_claims[user].contains_key(pool_id) {
            self.lp_claims[user][pool_id]
        } else {
            start
        }
    }

    /// What [`lp_payout_quote`] returns.
    pub open spec fn lp_payout_quote(
        self,
        caller: Principal,
        pool_id: nat,
        deposit: Option<DepositModel>,
        now: nat,
    ) -> Result<LpPayoutModel, Error> {
        if self.lp_contract is None {
            Err(Error::PoolContractNotSet)
        } else if self.bqbtc_address is None {
            Err(Error::LedgerNotSet)
        } else if deposit is None {
            Err(Error::DepositQueryFailed)
        } else if deposit->0.status != Status::Active {
            Err(Error::DepositNotActive)
        } else {
            let d = deposit->0;
            let days = claimable_days(
                self.last_claim(caller, pool_id, d.start_date),
                d.expiry_date,
                now,
            );
            if days == 0 {
                Err(Error::NoClaimableReward)
            } else {
                Ok(
                    LpPayoutModel {
                        ledger: self.bqbtc_address->0,
                        amount: d.daily_payout * days,
                        claim_time: claim_time(d.expiry_date, now),
                    },
                )
            }
        }
    }

    /// The claim times that `user` has on record, or none.
    pub open spec fn claims_of(self, user: Principal) -> Map<nat, nat> {
        if self.lp_claims.contains_key(user) {
            self.lp_claims[user]
        } else {
            Map::empty()
        }
    }

    /// The state after [`claim_payout_for_lp`], and what it returns. A call that is
    /// refused leaves the state as it was.
    pub open spec fn claim_payout_for_lp(
        self,
        caller: Principal,
        pool_id: nat,
        claim_time: nat,
        minted: bool,
    ) -> (StateModel, Result<(), Error>) {
        if !minted {
            (self, Err(Error::MintFailed))
        } else {
            (
                StateModel {
                    lp_claims: self.lp_claims.insert(
                        caller,
                        self.claims_of(caller).insert(pool_id, claim_time),
                    ),
                    ..self
                },
                Ok(()),
            )
        }
    }

    /// The state after [`delete_expired_user_covers`], and what it returns. A call that is
    /// refused leaves the state as it was.
    pub open spec fn delete_expired_user_covers(self, user: Principal, now: nat) -> (
        StateModel,
        Result<(), Error>,
    ) {
        if !self.user_covers.contains_key(user) {
            (self, Err(Error::UserCoversNotFound))
        } else {
            (
                StateModel {
                    user_covers: self.user_covers.insert(
                        user,
                        swept(self.user_covers[user], now),
                    ),
                    ..self
                },
                Ok(()),
            )
        }
    }

    /// What `user` has bought and still holds some value of.
    pub open spec fn valued_covers_of(self, user: Principal) -> Map<nat, GenericCoverInfoModel> {
        Map::new(
            |id: nat|
                self.user_covers[user].contains_key(id) && self.user_covers[user][id].cover_value
                    > 0,
            |id: nat| self.user_covers[user][id],
        )
    }

    /// What [`get_user_cover_info`] returns.
    pub open spec fn get_user_cover_info(self, user: Principal, cover_id: nat) -> Result<
        GenericCoverInfoModel,
        Error,
    > {
        if !self.user_covers.contains_key(user) {
            Err(Error::UserCoversNotFound)
        } else if !self.user_covers[user].contains_key(cover_id) {
            Err(Error::UserCoverNotFound)
        } else {
            Ok(self.user_covers[user][cover_id])
        }
    }

    /// What [`get_last_claim_time`] returns.
    pub open spec fn get_last_claim_time(self, user: Principal, pool_id: nat) -> Result<nat, Error> {
        if self.lp_claims.contains_key(user) && self.lp_claims[user].contains_key(pool_id) {
            Ok(self.lp_claims[user][pool_id])
        } else {
            Err(Error::ClaimTimeNotFound)
        }
    }

    /// What [`update_max_amount_target`] returns.
    pub open spec fn update_max_amount_target(self, cover_id: nat) -> Result<(Principal, nat), Error> {
        if self.lp_contract is None {
            Err(Error::PoolContractNotSet)
        } else if !self.covers.contains_key(cover_id) {
            Err(Error::CoverNotFound)
        } else if self.covers[cover_id].capacity == 0 {
            Err(Error::InvalidCapacity)
        } else {
            Ok((self.lp_contract->0, self.covers[cover_id].pool_id))
        }
    }

    /// The state after [`update_max_amount`], and what it returns. A call that is
    /// refused leaves the state as it was.
    pub open spec fn update_max_amount(self, cover_id: nat, pool: Option<PoolModel>) -> (
        StateModel,
        Result<(), Error>,
    ) {
        if !self.covers.contains_key(cover_id) {
            (self, Err(Error::CoverNotFound))
        } else if self.covers[cover_id].capacity == 0 {
            (self, Err(Error::InvalidCapacity))
        } else if pool is None {
            (self, Err(Error::PoolQueryFailed))
        } else {
            let cover = self.covers[cover_id];
            let amount = capacity_amount_of(pool->0.tvl, cover.capacity);
            if cover.cover_values > amount {
                (self, Err(Error::CapacityBelowPurchased))
            } else {
                (
                    StateModel {
                        covers: self.covers.insert(
                            cover_id,
                            CoverModel {
                                capacity_amount: amount,
                                max_amount: (amount - cover.cover_values) as nat,
                                ..cover
                            },
                        ),
                        ..self
                    },
                    Ok(()),
                )
            }
        }
    }

    /// What [`get_deposit_claimable_days`] returns.
    pub open spec fn get_deposit_claimable_days(
        self,
        user: Principal,
        pool_id: nat,
        deposit: Option<DepositModel>,
        now: nat,
    ) -> Result<nat, Error> {
        if self.lp_contract is None {
            Err(Error::PoolContractNotSet)
        } else if deposit is None {
            Err(Error::DepositQueryFailed)
        } else {
            Ok(
                claimable_days(
                    self.last_claim(user, pool_id, deposit->0.start_date),
                    deposit->0.expiry_date,
                    now,
                ),
            )
        }
    }
}

impl State {
    /// A cover manager that has done nothing yet.
    pub fn new() -> (r: State)
        ensures
            r.model() == StateModel::initial(),
            r.model().covers_sound(),
    {
        let r = State {
            covers: AssocMap::new(),
            cover_count: nat_from_u64(0),
            owner: None,
            bqbtc_address: None,
            lp_contract: None,
            gov_address: None,
            participants: Vec::new(),
            participation: AssocMap::new(),
            user_covers: AssocMap::new(),
            lp_claims: AssocMap::new(),
            cover_ids: Vec::new(),
        };
        assert(r.participants.model() =~= Seq::empty());
        assert(r.cover_ids.model() =~= Seq::empty());
        r
    }
}

/// Sets the pool actor, the owner, the governance actor and the ledger.
pub fn init(
    state: &mut State,
    lp_contract: Principal,
    initial_owner: Principal,
    governance: Principal,
    bqbtc: Principal,
)
    ensures
        final(state).model() == old(state).model().init(
            lp_contract,
            initial_owner,
            governance,
            bqbtc,
        ),
        old(state).model().covers_sound() ==> final(state).model().covers_sound(),
{
    state.lp_contract = Some(lp_contract);
    state.owner = Some(initial_owner);
    state.gov_address = Some(governance);
    state.bqbtc_address = Some(bqbtc);
}

/// `capacity` percent of `tvl`, by way of the fixed-point intermediate.
pub fn capacity_amount(tvl: &Nat, capacity: &Nat) -> (r: Nat)
    ensures
        val(&r) == capacity_amount_of(val(tvl), val(capacity)),
{
    let precision = nat_from_u64(PRECISION);
    let scaled = nat_div(nat_mul(capacity.clone(), precision.clone()), nat_from_u64(100));
    nat_div(nat_mul(tvl.clone(), scaled), precision)
}

/// Whether one of `covers` has the name `cover_name` or the id `cover_id`.
pub fn find_clash(covers: &Vec<Cover>, cover_id: &Nat, cover_name: &String) -> (r: bool)
    ensures
        r == clashes(covers.model(), val(cover_id), cover_name@),
{
    let mut i: usize = 0;
    while i < covers.len()
        invariant
            i <= covers@.len(),
            forall|j: int|
                0 <= j < i ==> !clashes_with(#[trigger] covers.model()[j], val(cover_id), cover_name@),
        decreases covers@.len() - i,
    {
        if covers[i].cover_name == *cover_name || nat_eq(cover_id, &covers[i].id) {
            assert(clashes_with(covers.model()[i as int], val(cover_id), cover_name@));
            return true;
        }
        i += 1;
    }
    false
}

/// Whether one of `covers`, other than the cover of the id `cover_id`, has
/// the name `cover_name`.
pub fn find_update_block(covers: &Vec<Cover>, cover_id: &Nat, cover_name: &String) -> (r: bool)
    ensures
        r == blocks_update(covers.model(), val(cover_id), cover_name@),
{
    let mut i: usize = 0;
    while i < covers.len()
        invariant
            i <= covers@.len(),
            forall|j: int|
                0 <= j < i ==> !blocks(#[trigger] covers.model()[j], val(cover_id), cover_name@),
        decreases covers@.len() - i,
    {
        if !nat_eq(cover_id, &covers[i].id) && covers[i].cover_name == *cover_name {
            assert(blocks(covers.model()[i as int], val(cover_id), cover_name@));
            return true;
        }
        i += 1;
    }
    false
}

/// Creates a cover against a pool. `pool_covers` and `pool` are what the pool
/// actor returned for the pool's covers and for the pool itself, or `None`
/// where it returned nothing. The cover must clash with none of the pool's
/// covers in id or name, and be of the pool's risk type. Its capacity amount
/// is its share of the pool's value, and all of it can be bought.
pub fn create_cover(
    state: &mut State,
    cover_id: Nat,
    cid: String,
    risk_type: RiskType,
    cover_name: String,
    chains: String,
    capacity: Nat,
    cost: Nat,
    pool_id: Nat,
    pool_covers: Option<Vec<Cover>>,
    pool: Option<Pool>,
) -> (r: Result<(), Error>)
    ensures
        (final(state).model(), r) == old(state).model().create_cover(
            val(&cover_id),
            cid@,
            risk_type,
            cover_name@,
            chains@,
            val(&capacity),
            val(&cost),
            val(&pool_id),
            pool_covers.model(),
            pool.model(),
        ),
        old(state).model().covers_sound() ==> final(state).model().covers_sound(),
{
    proof {
        if state.model().covers_sound() {
            lemma_create_keeps_books(
                state.model(),
                val(&cover_id),
                cid@,
                risk_type,
                cover_name@,
                chains@,
                val(&capacity),
                val(&cost),
                val(&pool_id),
                pool_covers.model(),
                pool.model(),
            );
        }
    }
    let covers = match pool_covers {
        Some(covers) => covers,
        None => { return Err(Error::PoolCoversQueryFailed); },
    };
    let pool = match pool {
        Some(pool) => pool,
        None => { return Err(Error::PoolQueryFailed); },
    };
    if find_clash(&covers, &cover_id, &cover_name) {
        return Err(Error::CoverExists);
    }
    if risk_type != pool.risk_type {
        return Err(Error::RiskTypeMismatch);
    }
    let maxamount = capacity_amount(&pool.tvl, &capacity);
    let cover = Cover {
        id: cover_id.clone(),
        cover_name,
        risk_type,
        chains,
        capacity,
        cost,
        capacity_amount: maxamount.clone(),
        cover_values: nat_from_u64(0),
        max_amount: maxamount,
        pool_id,
        cid,
    };
    state.covers.insert(cover_id.clone(), cover);
    state.cover_ids.push(cover_id);
    proof {
        assert(state.cover_ids.model() =~= old(state).cover_ids.model().push(val(&cover_id)));
    }
    Ok(())
}

/// Changes a cover, and says how the pool's percentage split is to follow.
/// `pool_covers` and `pool` are as for [`create_cover`]. The update is
/// refused where another cover of the pool has the new name, where the risk
/// type is not the pool's, where there is no such cover, and where more was
/// bought than the new capacity allows; a cover may keep its own name. The
/// new capacity amount is the cover's share of the pool's value now, and what
/// can still be bought is recomputed from it.
pub fn update_cover(
    state: &mut State,
    cover_id: Nat,
    cover_name: String,
    risk_type: RiskType,
    cid: String,
    chains: String,
    capacity: Nat,
    cost: Nat,
    pool_id: Nat,
    pool_covers: Option<Vec<Cover>>,
    pool: Option<Pool>,
) -> (r: Result<SplitAdjustment, Error>)
    ensures
        (final(state).model(), r.model()) == old(state).model().update_cover(
            val(&cover_id),
            cover_name@,
            risk_type,
            cid@,
            chains@,
            val(&capacity),
            val(&cost),
            val(&pool_id),
            pool_covers.model(),
            pool.model(),
        ),
        old(state).model().covers_sound() ==> final(state).model().covers_sound(),
{
    proof {
        if state.model().covers_sound() {
            lemma_update_keeps_books(
                state.model(),
                val(&cover_id),
                cover_name@,
                risk_type,
                cid@,
                chains@,
                val(&capacity),
                val(&cost),
                val(&pool_id),
                pool_covers.model(),
                pool.model(),
            );
        }
    }
    let covers = match pool_covers {
        Some(covers) => covers,
        None => { return Err(Error::PoolCoversQueryFailed); },
    };
    let pool = match pool {
        Some(pool) => pool,
        None => { return Err(Error::PoolQueryFailed); },
    };
    if find_update_block(&covers, &cover_id, &cover_name) {
        return Err(Error::CoverExists);
    }
    if risk_type != pool.risk_type {
        return Err(Error::RiskTypeMismatch);
    }
    let maxamount = capacity_amount(&pool.tvl, &capacity);
    let old_capacity = match state.covers.get_mut(&cover_id) {
        None => { return Err(Error::CoverNotFound); },
        Some(cover) => {
            proof {
                lemma_insert_same(old(state).model().covers, val(&cover_id));
            }
            if nat_lt(&maxamount, &cover.cover_values) {
                return Err(Error::CapacityBelowPurchased);
            }
            let old_capacity = cover.capacity.clone();
            cover.cover_name = cover_name;
            cover.risk_type = risk_type;
            cover.chains = chains;
            cover.capacity = capacity.clone();
            cover.cost = cost;
            cover.cid = cid;
            cover.max_amount = nat_sub(maxamount.clone(), cover.cover_values.clone());
            cover.capacity_amount = maxamount;
            old_capacity
        },
    };
    if nat_lt(&capacity, &old_capacity) {
        Ok(SplitAdjustment::Increase { pool_id, by: nat_sub(old_capacity, capacity) })
    } else {
        Ok(SplitAdjustment::Reduce { pool_id, by: nat_sub(capacity, old_capacity) })
    }
}

/// Buys `cover_value` of a cover for `cover_period` days. `burned` says
/// whether the ledger burned the premium; if it did not, nothing changes. The
/// value may not exceed what the cover can still take. A purchase replaces
/// what the caller had of the same cover.
pub fn purchase_cover(
    state: &mut State,
    caller: Principal,
    cover_id: Nat,
    cover_value: Nat,
    cover_period: Nat,
    burned: bool,
    now: u64,
) -> (r: Result<(), Error>)
    ensures
        (final(state).model(), r) == old(state).model().purchase_cover(
            caller,
            val(&cover_id),
            val(&cover_value),
            val(&cover_period),
            burned,
            now as nat,
        ),
        !burned ==> final(state).model() == old(state).model(),
        old(state).model().covers_sound() ==> final(state).model().covers_sound(),
{
    proof {
        if state.model().covers_sound() {
            lemma_purchase_keeps_books(
                state.model(),
                caller,
                val(&cover_id),
                val(&cover_value),
                val(&cover_period),
                burned,
                now as nat,
            );
        }
    }
    if !burned {
        return Err(Error::BurnFailed);
    }
    let (risk_type, cover_name) = match state.covers.get_mut(&cover_id) {
        None => { return Err(Error::CoverNotFound); },
        Some(cover) => {
            proof {
                lemma_insert_same(old(state).model().covers, val(&cover_id));
            }
            if nat_lt(&cover.max_amount, &cover_value) {
                return Err(Error::InsufficientCapacity);
            }
            cover.cover_values = nat_add(cover.cover_values.clone(), cover_value.clone());
            cover.max_amount = nat_sub(cover.max_amount.clone(), cover_value.clone());
            (cover.risk_type, cover.cover_name.clone())
        },
    };
    let end_day = nat_add(nat_from_u64(now), nat_mul(cover_period.clone(), nat_from_u64(86400)));
    let info = GenericCoverInfo {
        user: caller,
        cover_id: cover_id.clone(),
        risk_type,
        cover_name,
        cover_value,
        claim_paid: nat_from_u64(0),
        cover_period,
        end_day,
        is_active: true,
    };
    match state.user_covers.get_mut(&caller) {
        Some(bought) => {
            bought.insert(cover_id, info);
        },
        None => {
            let mut bought: AssocMap<Nat, GenericCoverInfo> = AssocMap::new();
            bought.insert(cover_id, info);
            state.user_covers.insert(caller, bought);
        },
    }
    record_participation(&mut state.participants, &mut state.participation, caller);
    Ok(())
}

/// Books a claim payment against what a user bought of a cover: the value
/// covered goes down by `claim_paid`, the claims paid go up by it.
pub fn update_user_cover_value(state: &mut State, user: Principal, cover_id: Nat, claim_paid: Nat) -> (r:
    Result<(), Error>)
    ensures
        (final(state).model(), r) == old(state).model().update_user_cover_value(
            user,
            val(&cover_id),
            val(&claim_paid),
        ),
        old(state).model().covers_sound() ==> final(state).model().covers_sound(),
{
    proof {
        if state.model().covers_sound() {
            lemma_same_covers_same_books(
                state.model(),
                state.model().update_user_cover_value(user, val(&cover_id), val(&claim_paid)).0,
            );
        }
    }
    match state.user_covers.get_mut(&user) {
        None => Err(Error::UserCoversNotFound),
        Some(bought) => {
            proof {
                lemma_insert_same(old(state).model().user_covers, user);
            }
            let ghost before = bought.model();
            match bought.get_mut(&cover_id) {
                None => Err(Error::UserCoverNotFound),
                Some(info) => {
                    proof {
                        lemma_insert_same(before, val(&cover_id));
                    }
                    if nat_lt(&info.cover_value, &claim_paid) {
                        return Err(Error::ClaimExceedsCover);
                    }
                    info.cover_value = nat_sub(info.cover_value.clone(), claim_paid.clone());
                    info.claim_paid = nat_add(info.claim_paid.clone(), claim_paid);
                    Ok(())
                },
            }
        },
    }
}

/// The whole days of payout accrued since `last_claim`, and the time up to
/// which they count.
pub fn accrued_days(last_claim: &Nat, expiry: &Nat, now: u64) -> (r: (Nat, Nat))
    ensures
        val(&r.0) == claimable_days(val(last_claim), val(expiry), now as nat),
        val(&r.1) == claim_time(val(expiry), now as nat),
{
    let now = nat_from_u64(now);
    let current = if nat_lt(expiry, &now) {
        expiry.clone()
    } else {
        now
    };
    if nat_lt(&current, last_claim) {
        (nat_from_u64(0), current)
    } else {
        let days = nat_div(nat_sub(current.clone(), last_claim.clone()), nat_from_u64(86400));
        (days, current)
    }
}

/// When `user` last claimed a payout from pool `pool_id`; failing that,
/// `start`.
pub fn last_claim_or(state: &State, user: &Principal, pool_id: &Nat, start: &Nat) -> (r: Nat)
    ensures
        val(&r) == state.model().last_claim(*user, val(pool_id), val(start)),
{
    match state.lp_claims.get(user) {
        Some(claims) => match claims.get(pool_id) {
            Some(time) => time.clone(),
            None => start.clone(),
        },
        None => start.clone(),
    }
}

/// The payout of yield that the caller may claim from a pool: the first step
/// of a payout, made before the ledger is asked to mint. `deposit` is what the
/// pool actor returned for the caller's deposit, or `None` if it returned
/// nothing. Days count from the last claim, or from the start of the deposit,
/// up to now or to the end of the lock, whichever comes first; a time that
/// lies before the last claim counts as no day at all.
pub fn lp_payout_quote(
    state: &State,
    caller: Principal,
    pool_id: &Nat,
    deposit: Option<Deposit>,
    now: u64,
) -> (r: Result<LpPayout, Error>)
    ensures
        r.model() == state.model().lp_payout_quote(
            caller,
            val(pool_id),
            deposit.model(),
            now as nat,
        ),
{
    if state.lp_contract.is_none() {
        return Err(Error::PoolContractNotSet);
    }
    let ledger = match state.bqbtc_address {
        Some(ledger) => ledger,
        None => { return Err(Error::LedgerNotSet); },
    };
    let deposit = match deposit {
        Some(deposit) => deposit,
        None => { return Err(Error::DepositQueryFailed); },
    };
    if deposit.status != Status::Active {
        return Err(Error::DepositNotActive);
    }
    let last = last_claim_or(state, &caller, pool_id, &deposit.start_date);
    let (days, current) = accrued_days(&last, &deposit.expiry_date, now);
    if !nat_lt(&nat_from_u64(0), &days) {
        return Err(Error::NoClaimableReward);
    }
    Ok(LpPayout { ledger, amount: nat_mul(deposit.daily_payout, days), claim_time: current })
}

/// Records a payout of yield. `minted` says whether the ledger minted it; if
/// it did not, nothing changes. Else `claim_time` becomes the caller's last
/// claim on the pool.
pub fn claim_payout_for_lp(
    state: &mut State,
    caller: Principal,
    pool_id: Nat,
    claim_time: Nat,
    minted: bool,
) -> (r: Result<(), Error>)
    ensures
        (final(state).model(), r) == old(state).model().claim_payout_for_lp(
            caller,
            val(&pool_id),
            val(&claim_time),
            minted,
        ),
        old(state).model().covers_sound() ==> final(state).model().covers_sound(),
{
    proof {
        if state.model().covers_sound() {
            lemma_same_covers_same_books(
                state.model(),
                state.model().claim_payout_for_lp(caller, val(&pool_id), val(&claim_time), minted).0,
            );
        }
    }
    if !minted {
        return Err(Error::MintFailed);
    }
    match state.lp_claims.get_mut(&caller) {
        Some(claims) => {
            claims.insert(pool_id, claim_time);
        },
        None => {
            let mut claims: AssocMap<Nat, Nat> = AssocMap::new();
            claims.insert(pool_id, claim_time);
            state.lp_claims.insert(caller, claims);
        },
    }
    Ok(())
}

/// Looking at one more id either drops that id's cover, if it has run out,
/// or changes nothing.
proof fn lemma_swept_step(covers: Map<nat, GenericCoverInfoModel>, ids: Seq<nat>, i: int, now: nat)
    requires
        0 <= i < ids.len(),
    ensures
        ({
            let so_far = swept_among(covers, ids.take(i), now);
            let id = ids[i];
            swept_among(covers, ids.take(i + 1), now) == if so_far.contains_key(id) && expired(
                so_far[id],
                now,
            ) {
                so_far.remove(id)
            } else {
                so_far
            }
        }),
{
    let so_far = swept_among(covers, ids.take(i), now);
    let next = swept_among(covers, ids.take(i + 1), now);
    let id = ids[i];
    assert(ids.take(i + 1) =~= ids.take(i).push(id));
    assert forall|k: nat| ids.take(i + 1).contains(k) <==> (ids.take(i).contains(k) || k == id) by {
        if ids.take(i).contains(k) {
            let j = choose|j: int| 0 <= j < ids.take(i).len() && ids.take(i)[j] == k;
            assert(ids.take(i + 1)[j] == k);
        }
        if k == id {
            assert(ids.take(i + 1)[i] == k);
        }
    }
    if so_far.contains_key(id) && expired(so_far[id], now) {
        assert(next =~= so_far.remove(id));
    } else {
        assert(next =~= so_far);
    }
}

/// Drops from `bought` every cover that has run out by `now`.
pub fn sweep(bought: &mut AssocMap<Nat, GenericCoverInfo>, now: &Nat)
    ensures
        final(bought).model() == swept(old(bought).model(), val(now)),
{
    let ghost before = bought.model();
    let own = bought.keys();
    let ghost ids = own.model();
    let mut i: usize = 0;
    proof {
        bought.lemma_keys_cover();
        assert(swept_among(before, ids.take(0), val(now)) =~= before);
    }
    while i < own.len()
        invariant
            i <= own@.len(),
            ids == own.model(),
            bought.model() == swept_among(before, ids.take(i as int), val(now)),
        decreases own@.len() - i,
    {
        let id = &own[i];
        let gone = match bought.get(id) {
            Some(info) => info.is_active && nat_lt(&info.end_day, now),
            None => false,
        };
        proof {
            lemma_swept_step(before, ids, i as int, val(now));
        }
        if gone {
            let _ = bought.remove(id);
        }
        i += 1;
    }
    proof {
        assert(ids.take(i as int) =~= ids);
        assert(swept_among(before, ids, val(now)) =~= swept(before, val(now)));
    }
}

/// Sweeps a user's covers: every one that is active and whose end lies
/// before `now` is dropped, whatever its id, and every other one stays as it
/// is. Nothing runs this by itself; whoever wants expired covers gone calls
/// it.
pub fn delete_expired_user_covers(state: &mut State, user: Principal, now: u64) -> (r: Result<
    (),
    Error,
>)
    ensures
        (final(state).model(), r) == old(state).model().delete_expired_user_covers(
            user,
            now as nat,
        ),
        old(state).model().covers_sound() ==> final(state).model().covers_sound(),
{
    proof {
        if state.model().covers_sound() {
            lemma_same_covers_same_books(
                state.model(),
                state.model().delete_expired_user_covers(user, now as nat).0,
            );
        }
    }
    let now = nat_from_u64(now);
    match state.user_covers.get_mut(&user) {
        None => Err(Error::UserCoversNotFound),
        Some(bought) => {
            sweep(bought, &now);
            Ok(())
        },
    }
}

/// The pool actor to ask, and the pool to ask it for, before a cover's
/// capacity can be recomputed.
pub fn update_max_amount_target(state: &State, cover_id: &Nat) -> (r: Result<(Principal, Nat), Error>)
    ensures
        r.model() == state.model().update_max_amount_target(val(cover_id)),
{
    let pool_contract = match state.lp_contract {
        Some(p) => p,
        None => { return Err(Error::PoolContractNotSet); },
    };
    let cover = match state.covers.get(cover_id) {
        Some(cover) => cover,
        None => { return Err(Error::CoverNotFound); },
    };
    if !nat_lt(&nat_from_u64(0), &cover.capacity) {
        return Err(Error::InvalidCapacity);
    }
    Ok((pool_contract, cover.pool_id.clone()))
}

/// Recomputes a cover's capacity amount from its pool's value now, and what
/// can still be bought from that. `pool` is what the pool actor returned for
/// the cover's pool, or `None` if it returned nothing. Where the pool's value
/// has sunk so far that more was bought than the new capacity allows, the
/// cover is left as it is.
pub fn update_max_amount(state: &mut State, cover_id: Nat, pool: Option<Pool>) -> (r: Result<
    (),
    Error,
>)
    ensures
        (final(state).model(), r) == old(state).model().update_max_amount(
            val(&cover_id),
            pool.model(),
        ),
        old(state).model().covers_sound() ==> final(state).model().covers_sound(),
{
    proof {
        if state.model().covers_sound() {
            lemma_recompute_keeps_books(state.model(), val(&cover_id), pool.model());
        }
    }
    match state.covers.get_mut(&cover_id) {
        None => Err(Error::CoverNotFound),
        Some(cover) => {
            proof {
                lemma_insert_same(old(state).model().covers, val(&cover_id));
            }
            if !nat_lt(&nat_from_u64(0), &cover.capacity) {
                return Err(Error::InvalidCapacity);
            }
            let pool = match pool {
                Some(pool) => pool,
                None => { return Err(Error::PoolQueryFailed); },
            };
            let amount = capacity_amount(&pool.tvl, &cover.capacity);
            if nat_lt(&amount, &cover.cover_values) {
                return Err(Error::CapacityBelowPurchased);
            }
            cover.max_amount = nat_sub(amount.clone(), cover.cover_values.clone());
            cover.capacity_amount = amount;
            Ok(())
        },
    }
}

/// The whole days of payout that `user` could claim from a pool now.
/// `deposit` is as for [`lp_payout_quote`].
pub fn get_deposit_claimable_days(
    state: &State,
    user: Principal,
    pool_id: &Nat,
    deposit: Option<Deposit>,
    now: u64,
) -> (r: Result<Nat, Error>)
    ensures
        r.model() == state.model().get_deposit_claimable_days(
            user,
            val(pool_id),
            deposit.model(),
            now as nat,
        ),
{
    if state.lp_contract.is_none() {
        return Err(Error::PoolContractNotSet);
    }
    let deposit = match deposit {
        Some(deposit) => deposit,
        None => { return Err(Error::DepositQueryFailed); },
    };
    let last = last_claim_or(state, &user, pool_id, &deposit.start_date);
    let (days, _) = accrued_days(&last, &deposit.expiry_date, now);
    Ok(days)
}

/// Who has bought cover, in order of first purchase.
pub fn get_all_participants(state: &State) -> (r: Result<Vec<Principal>, Error>)
    ensures
        r.model() == Ok::<Seq<Principal>, Error>(state.model().participants),
{
    Ok(state.participants.duplicate())
}

/// How many purchases `user` made.
pub fn get_user_participation(state: &State, user: Principal) -> (r: Result<Nat, Error>)
    ensures
        r.model() == if state.model().participation.contains_key(user) {
            Ok::<nat, Error>(state.model().participation[user])
        } else {
            Err(Error::ParticipationNotFound)
        },
{
    match state.participation.get(&user) {
        Some(count) => Ok(count.clone()),
        None => Err(Error::ParticipationNotFound),
    }
}

/// What `user` has bought and still holds some value of, each cover once.
pub fn get_all_user_covers(state: &State, user: Principal) -> (r: Result<Vec<GenericCoverInfo>, Error>)
    ensures
        match r {
            Ok(covers) => state.model().user_covers.contains_key(user) && lists_values(
                covers.model(),
                state.model().valued_covers_of(user),
            ),
            Err(e) => e == Error::UserCoversNotFound && !state.model().user_covers.contains_key(
                user,
            ),
        },
{
    let bought = match state.user_covers.get(&user) {
        Some(bought) => bought,
        None => { return Err(Error::UserCoversNotFound); },
    };
    let n: usize = bought.len();
    let zero = nat_from_u64(0);
    let mut flags: Vec<bool> = Vec::new();
    let mut i: usize = 0;
    while i < n
        invariant
            bought.wf(),
            n == bought.key_seq().len(),
            val(&zero) == 0,
            i <= n,
            flags@.len() == i,
            forall|j: int| 0 <= j < i ==> flags@[j] == ((#[trigger] bought.value_seq()[j]).cover_value > 0),
        decreases n - i,
    {
        flags.push(nat_lt(&zero, &bought.value_at(i).cover_value));
        i += 1;
    }
    proof {
        assert forall|k: nat| bought.contains(k) implies (flags@[bought.index_of(k)] <==> bought.model()[k].cover_value
            > 0) by {
            let x = bought.index_of(k);
            assert(flags@[x] == (bought.value_seq()[x].cover_value > 0));
        }
        assert(bought.flagged(flags@) =~= state.model().valued_covers_of(user));
    }
    Ok(bought.select(&flags))
}

/// All covers, each once.
pub fn get_all_available_covers(state: &State) -> (r: Result<Vec<Cover>, Error>)
    ensures
        r is Ok,
        lists_values(r->Ok_0.model(), state.model().covers),
{
    Ok(state.covers.values())
}

/// The cover of the given id.
pub fn get_cover_info(state: &State, cover_id: &Nat) -> (r: Result<Cover, Error>)
    ensures
        r.model() == if state.model().covers.contains_key(val(cover_id)) {
            Ok::<CoverModel, Error>(state.model().covers[val(cover_id)])
        } else {
            Err(Error::CoverNotFound)
        },
{
    match state.covers.get(cover_id) {
        Some(cover) => Ok(cover.clone()),
        None => Err(Error::CoverNotFound),
    }
}

/// What `user` has bought of the cover of the given id.
pub fn get_user_cover_info(state: &State, user: Principal, cover_id: &Nat) -> (r: Result<
    GenericCoverInfo,
    Error,
>)
    ensures
        r.model() == state.model().get_user_cover_info(user, val(cover_id)),
{
    let bought = match state.user_covers.get(&user) {
        Some(bought) => bought,
        None => { return Err(Error::UserCoversNotFound); },
    };
    match bought.get(cover_id) {
        Some(info) => Ok(info.clone()),
        None => Err(Error::UserCoverNotFound),
    }
}

/// When `user` last claimed a payout from a pool.
pub fn get_last_claim_time(state: &State, user: Principal, pool_id: &Nat) -> (r: Result<Nat, Error>)
    ensures
        r.model() == state.model().get_last_claim_time(user, val(pool_id)),
{
    let claims = match state.lp_claims.get(&user) {
        Some(claims) => claims,
        None => { return Err(Error::ClaimTimeNotFound); },
    };
    match claims.get(pool_id) {
        Some(time) => Ok(time.clone()),
        None => Err(Error::ClaimTimeNotFound),
    }
}

/// The fixed-point intermediate loses nothing: a cover's capacity amount is
/// its percentage of the pool's value, rounded down once.
pub proof fn lemma_capacity_amount_is_percentage(tvl: nat, capacity: nat)
    ensures
        capacity_amount_of(tvl, capacity) == tvl * capacity / 100,
{
    let unit: int = 10_000_000_000_000_000;
    let p: int = PRECISION as int;
    assert(p == 100 * unit);
    let c: int = capacity as int;
    let t: int = tvl as int;
    assert(c * p == 100 * (c * unit)) by (nonlinear_arith)
        requires
            p == 100 * unit,
    ;
    vstd::arithmetic::div_mod::lemma_div_multiples_vanish(c * unit, 100);
    assert(c * p / 100 == c * unit);
    assert(t * (c * unit) == unit * (t * c)) by (nonlinear_arith);
    assert(0 <= t * c) by (nonlinear_arith)
        requires
            0 <= t,
            0 <= c,
    ;
    vstd::arithmetic::div_mod::lemma_div_multiples_vanish_quotient(unit, t * c, 100);
    assert(unit * 100 == p);
    assert((t * c) / 100 == (unit * (t * c)) / (unit * 100));
}

/// A cover never holds more than its percentage of the pool's value: with a
/// capacity of at most 100 percent, its capacity amount is at most the
/// pool's value.
pub proof fn lemma_capacity_amount_bounded(tvl: nat, capacity: nat)
    requires
        capacity <= 100,
    ensures
        capacity_amount_of(tvl, capacity) <= tvl,
{
    lemma_capacity_amount_is_percentage(tvl, capacity);
    assert(tvl * capacity <= tvl * 100) by (nonlinear_arith)
        requires
            capacity <= 100,
    ;
    assert(tvl * capacity / 100 <= tvl * 100 / 100) by (nonlinear_arith)
        requires
            tvl * capacity <= tvl * 100,
    ;
}

/// A sweep drops exactly the covers that have run out: what stays is every
/// cover that is inactive or ends at `now` or later, as it was, and nothing
/// that is active and ended before `now`.
pub proof fn lemma_swept_exact(covers: Map<nat, GenericCoverInfoModel>, now: nat, id: nat)
    ensures
        swept(covers, now).contains_key(id) <==> covers.contains_key(id) && !(covers[id].is_active
            && covers[id].end_day < now),
        swept(covers, now).contains_key(id) ==> swept(covers, now)[id] == covers[id],
{
}

/// Sweeping is idempotent: a second sweep at the same time finds nothing left
/// to drop.
pub proof fn lemma_swept_idempotent(covers: Map<nat, GenericCoverInfoModel>, now: nat)
    ensures
        swept(swept(covers, now), now) == swept(covers, now),
{
    assert(swept(swept(covers, now), now) =~= swept(covers, now));
}

/// Running the expiry sweep twice in a row, at the same time, gives the state
/// and the result that running it once gives.
pub proof fn lemma_delete_expired_twice(s: StateModel, user: Principal, now: nat)
    ensures
        s.delete_expired_user_covers(user, now).0.delete_expired_user_covers(user, now)
            == s.delete_expired_user_covers(user, now),
{
    if s.user_covers.contains_key(user) {
        let once = s.delete_expired_user_covers(user, now).0;
        lemma_swept_idempotent(s.user_covers[user], now);
        assert(once.user_covers.insert(user, swept(once.user_covers[user], now))
            =~= once.user_covers);
    }
}

/// The expiry sweep touches nothing but the covers of the user it is run
/// for: the covers on offer, what other users bought, and everything else
/// stay as they were.
pub proof fn lemma_delete_expired_is_local(
    s: StateModel,
    user: Principal,
    now: nat,
    other: Principal,
)
    requires
        other != user,
    ensures
        ({
            let after = s.delete_expired_user_covers(user, now).0;
            &&& after.covers == s.covers
            &&& after.cover_ids == s.cover_ids
            &&& after.lp_claims == s.lp_claims
            &&& after.participants == s.participants
            &&& after.participation == s.participation
            &&& after.user_covers.contains_key(other) == s.user_covers.contains_key(other)
            &&& s.user_covers.contains_key(other) ==> after.user_covers[other]
                == s.user_covers[other]
        }),
{
}

/// A purchase whose premium was not burned changes nothing, whatever else is
/// asked for.
pub proof fn lemma_purchase_needs_burn(
    s: StateModel,
    caller: Principal,
    cover_id: nat,
    cover_value: nat,
    cover_period: nat,
    now: nat,
)
    ensures
        s.purchase_cover(caller, cover_id, cover_value, cover_period, false, now) == (
            s,
            Err::<(), Error>(Error::BurnFailed),
        ),
{
}

/// Creating a cover keeps the books of every cover balanced.
pub proof fn lemma_create_keeps_books(
    s: StateModel,
    cover_id: nat,
    cid: Seq<char>,
    risk_type: RiskType,
    cover_name: Seq<char>,
    chains: Seq<char>,
    capacity: nat,
    cost: nat,
    pool_id: nat,
    pool_covers: Option<Seq<CoverModel>>,
    pool: Option<PoolModel>,
)
    requires
        s.covers_sound(),
    ensures
        s.create_cover(
            cover_id,
            cid,
            risk_type,
            cover_name,
            chains,
            capacity,
            cost,
            pool_id,
            pool_covers,
            pool,
        ).0.covers_sound(),
{
    let after = s.create_cover(
        cover_id,
        cid,
        risk_type,
        cover_name,
        chains,
        capacity,
        cost,
        pool_id,
        pool_covers,
        pool,
    ).0;
    assert forall|id: nat| #[trigger] after.covers.contains_key(id) implies cover_sound(
        after.covers[id],
    ) by {
        if id != cover_id {
            assert(s.covers.contains_key(id));
        }
    }
}

/// Updating a cover keeps the books of every cover balanced.
pub proof fn lemma_update_keeps_books(
    s: StateModel,
    cover_id: nat,
    cover_name: Seq<char>,
    risk_type: RiskType,
    cid: Seq<char>,
    chains: Seq<char>,
    capacity: nat,
    cost: nat,
    pool_id: nat,
    pool_covers: Option<Seq<CoverModel>>,
    pool: Option<PoolModel>,
)
    requires
        s.covers_sound(),
    ensures
        s.update_cover(
            cover_id,
            cover_name,
            risk_type,
            cid,
            chains,
            capacity,
            cost,
            pool_id,
            pool_covers,
            pool,
        ).0.covers_sound(),
{
    let after = s.update_cover(
        cover_id,
        cover_name,
        risk_type,
        cid,
        chains,
        capacity,
        cost,
        pool_id,
        pool_covers,
        pool,
    ).0;
    assert forall|id: nat| #[trigger] after.covers.contains_key(id) implies cover_sound(
        after.covers[id],
    ) by {
        assert(s.covers.contains_key(id));
    }
}

/// Recomputing a cover's capacity keeps the books of every cover balanced.
pub proof fn lemma_recompute_keeps_books(s: StateModel, cover_id: nat, pool: Option<PoolModel>)
    requires
        s.covers_sound(),
    ensures
        s.update_max_amount(cover_id, pool).0.covers_sound(),
{
    let after = s.update_max_amount(cover_id, pool).0;
    assert forall|id: nat| #[trigger] after.covers.contains_key(id) implies cover_sound(
        after.covers[id],
    ) by {
        assert(s.covers.contains_key(id));
    }
}

/// What does not touch the covers leaves their books as they were.
pub proof fn lemma_same_covers_same_books(before: StateModel, after: StateModel)
    requires
        before.covers_sound(),
        after.covers == before.covers,
    ensures
        after.covers_sound(),
{
}

/// A purchase keeps the books of every cover balanced. One that succeeds
/// moves the value bought from what can still be bought to what was bought,
/// and leaves the capacity as it was.
pub proof fn lemma_purchase_keeps_books(
    s: StateModel,
    caller: Principal,
    cover_id: nat,
    cover_value: nat,
    cover_period: nat,
    burned: bool,
    now: nat,
)
    requires
        s.covers_sound(),
    ensures
        s.purchase_cover(caller, cover_id, cover_value, cover_period, burned, now).0.covers_sound(),
        s.purchase_cover(caller, cover_id, cover_value, cover_period, burned, now).1 is Ok ==> {
            let after = s.purchase_cover(
                caller,
                cover_id,
                cover_value,
                cover_period,
                burned,
                now,
            ).0.covers[cover_id];
            &&& after.cover_values == s.covers[cover_id].cover_values + cover_value
            &&& after.max_amount + cover_value == s.covers[cover_id].max_amount
            &&& after.capacity_amount == s.covers[cover_id].capacity_amount
        },
{
    let after = s.purchase_cover(caller, cover_id, cover_value, cover_period, burned, now).0;
    assert forall|id: nat| #[trigger] after.covers.contains_key(id) implies cover_sound(
        after.covers[id],
    ) by {
        assert(s.covers.contains_key(id));
    }
}

/// An update that meets every condition is carried out. With the pool and
/// its covers reported, no other cover of the pool under the new name, the
/// risk type that of the pool, and no more bought than the new capacity
/// allows: the cover gets the capacity asked for, its capacity amount becomes
/// that percentage of the pool's value, rounded down, what was bought stays,
/// and what can still be bought is the one less the other. How many other
/// covers the pool holds, and whether the name changes, makes no difference.
pub proof fn lemma_valid_update(
    s: StateModel,
    cover_id: nat,
    cover_name: Seq<char>,
    risk_type: RiskType,
    cid: Seq<char>,
    chains: Seq<char>,
    capacity: nat,
    cost: nat,
    pool_id: nat,
    pool_covers: Seq<CoverModel>,
    pool: PoolModel,
)
    requires
        s.covers.contains_key(cover_id),
        !blocks_update(pool_covers, cover_id, cover_name),
        risk_type == pool.risk_type,
        s.covers[cover_id].cover_values <= pool.tvl * capacity / 100,
    ensures
        ({
            let outcome = s.update_cover(
                cover_id,
                cover_name,
                risk_type,
                cid,
                chains,
                capacity,
                cost,
                pool_id,
                Some(pool_covers),
                Some(pool),
            );
            let before = s.covers[cover_id];
            let after = outcome.0.covers[cover_id];
            &&& outcome.1 is Ok
            &&& after.capacity == capacity
            &&& after.capacity_amount == pool.tvl * capacity / 100
            &&& after.cover_values == before.cover_values
            &&& after.max_amount == after.capacity_amount - after.cover_values
            &&& after.cover_name == cover_name
            &&& after.risk_type == risk_type
            &&& after.cost == cost
            &&& after.pool_id == before.pool_id
            &&& after.id == before.id
        }),
{
    lemma_capacity_amount_is_percentage(pool.tvl, capacity);
}

/// An update is refused for its name only where another cover of the pool
/// has that name: covers of other ids and other names do not stand in the
/// way, and neither does the cover itself, under whatever name it is listed.
pub proof fn lemma_only_a_taken_name_blocks(covers: Seq<CoverModel>, cover_id: nat, cover_name: Seq<char>)
    ensures
        blocks_update(covers, cover_id, cover_name) <==> exists|i: int|
            0 <= i < covers.len() && (#[trigger] covers[i]).id != cover_id && covers[i].cover_name
                == cover_name,
        (forall|i: int| 0 <= i < covers.len() ==> (#[trigger] covers[i]).id == cover_id)
            ==> !blocks_update(covers, cover_id, cover_name),
        (forall|i: int| 0 <= i < covers.len() ==> (#[trigger] covers[i]).cover_name != cover_name)
            ==> !blocks_update(covers, cover_id, cover_name),
{
    if blocks_update(covers, cover_id, cover_name) {
        let i = choose|i: int|
            0 <= i < covers.len() && blocks(#[trigger] covers[i], cover_id, cover_name);
        assert(covers[i].id != cover_id && covers[i].cover_name == cover_name);
    }
    if exists|i: int|
        0 <= i < covers.len() && (#[trigger] covers[i]).id != cover_id && covers[i].cover_name
            == cover_name {
        let i = choose|i: int|
            0 <= i < covers.len() && (#[trigger] covers[i]).id != cover_id && covers[i].cover_name
                == cover_name;
        assert(blocks(covers[i], cover_id, cover_name));
    }
}

} // verus!
