//! The pool manager.
//!
//! It owns the risk pools: their capital, the deposits of each liquidity
//! provider, and the percentage split that says how much of a pool's capacity
//! is still free for covers. Calls to other actors are made by the embedding
//! program; the functions here take what those calls returned and decide what
//! becomes of the state.
//!
//! Where an operation spans several actors, value is debited here before the
//! ledger is asked to mint. A withdrawal whose mint fails is put back: the
//! pool and the deposit get the amount again, so that a failed withdrawal
//! leaves both as they were. A claim whose later steps fail stays debited,
//! and the claimant must see to the payout. Every pool has a list of its
//! covers from the moment it is created.

use candid::{Nat, Principal};
use vstd::prelude::*;

use crate::assoc::{
    flagged_positions, lemma_insert_same, lists, lists_entries, lists_values, picks, AssocMap,
};
use crate::error::Error;
use crate::model::Model;
use crate::natural::{nat_add, nat_div, nat_eq, nat_from_u64, nat_lt, nat_mul, nat_sub, val};
use crate::participation::{counted, noted, record_participation};
use crate::principal::{holds, principal_eq};
use crate::types::{
    Cover, CoverModel, Deposit, DepositModel, Pool, PoolInfo, PoolInfoModel, PoolModel, Proposal,
    ProposalModel, ProposalStatus, RiskType, Status,
};

verus! {

/// Everything the pool manager keeps.
#[derive(Debug)]
pub struct State {
    /// The pools, by id.
    pub pools: AssocMap<Nat, Pool>,
    /// How many pools were created; the id of the latest.
    pub pool_count: Nat,
    /// Who may create and change pools.
    pub owner: Option<Principal>,
    /// The ledger.
    pub bq_btc_address: Option<Principal>,
    /// The cover actor, which alone may change percentage splits.
    pub cover_address: Option<Principal>,
    /// The governance actor.
    pub gov_address: Option<Principal>,
    /// Who has deposited, in order of first deposit.
    pub participants: Vec<Principal>,
    /// How many deposits each participant made.
    pub participation: AssocMap<Principal, Nat>,
    /// The covers drawn against each pool.
    pub pool_covers: AssocMap<Nat, Vec<Cover>>,
}

/// What a [`State`] stands for.
pub struct StateModel {
    pub pools: Map<nat, PoolModel>,
    pub pool_count: nat,
    pub owner: Option<Principal>,
    pub bq_btc_address: Option<Principal>,
    pub cover_address: Option<Principal>,
    pub gov_address: Option<Principal>,
    pub participants: Seq<Principal>,
    pub participation: Map<Principal, nat>,
    pub pool_covers: Map<nat, Seq<CoverModel>>,
}

impl Model for State {
    type M = StateModel;

    open spec fn model(&self) -> StateModel {
        StateModel {
            pools: self.pools.model(),
            pool_count: self.pool_count.model(),
            owner: self.owner.model(),
            bq_btc_address: self.bq_btc_address.model(),
            cover_address: self.cover_address.model(),
            gov_address: self.gov_address.model(),
            participants: self.participants.model(),
            participation: self.participation.model(),
            pool_covers: self.pool_covers.model(),
        }
    }

    fn duplicate(&self) -> (r: Self) {
        State {
            pools: self.pools.duplicate(),
            pool_count: self.pool_count.duplicate(),
            owner: self.owner.duplicate(),
            bq_btc_address: self.bq_btc_address.duplicate(),
            cover_address: self.cover_address.duplicate(),
            gov_address: self.gov_address.duplicate(),
            participants: self.participants.duplicate(),
            participation: self.participation.duplicate(),
            pool_covers: self.pool_covers.duplicate(),
        }
    }
}

impl Clone for State {
    fn clone(&self) -> (r: Self)
        ensures
            r.model() == self.model(),
    {
        self.duplicate()
    }
}

/// What a deposit will yield, and where its tokens are to be burned: worked
/// out before the ledger is asked.
#[derive(Debug)]
pub struct DepositQuote {
    /// The ledger that is to burn the tokens.
    pub ledger: Principal,
    /// The yield of one day.
    pub daily_payout: Nat,
    /// The pool's lock period, in days.
    pub min_period: Nat,
}

/// What a [`DepositQuote`] stands for.
pub struct DepositQuoteModel {
    pub ledger: Principal,
    pub daily_payout: nat,
    pub min_period: nat,
}

impl Model for DepositQuote {
    type M = DepositQuoteModel;

    open spec fn model(&self) -> DepositQuoteModel {
        DepositQuoteModel {
            ledger: self.ledger,
            daily_payout: self.daily_payout.model(),
            min_period: self.min_period.model(),
        }
    }

    fn duplicate(&self) -> (r: Self) {
        DepositQuote {
            ledger: self.ledger,
            daily_payout: self.daily_payout.duplicate(),
            min_period: self.min_period.duplicate(),
        }
    }
}

/// Tokens that the ledger is to mint.
#[derive(Debug)]
pub struct MintOrder {
    /// The ledger that is to mint.
    pub ledger: Principal,
    /// Who receives the tokens.
    pub to: Principal,
    /// How many.
    pub amount: Nat,
}

/// What a [`MintOrder`] stands for.
pub struct MintOrderModel {
    pub ledger: Principal,
    pub to: Principal,
    pub amount: nat,
}

impl Model for MintOrder {
    type M = MintOrderModel;

    open spec fn model(&self) -> MintOrderModel {
        MintOrderModel { ledger: self.ledger, to: self.to, amount: self.amount.model() }
    }

    fn duplicate(&self) -> (r: Self) {
        MintOrder { ledger: self.ledger, to: self.to, amount: self.amount.duplicate() }
    }
}

/// The three actors that a claim settlement talks to.
#[derive(Clone, Copy, Debug)]
pub struct ClaimContacts {
    pub governance: Principal,
    pub ledger: Principal,
    pub cover: Principal,
}

/// What is left to do for a claim once the pool has been debited.
#[derive(Debug)]
pub struct ClaimPlan {
    /// The covers of the paying pool, whose capacity is to be recomputed.
    pub cover_ids: Vec<Nat>,
    /// The amount to mint to the claimant.
    pub amount: Nat,
}

/// What a [`ClaimPlan`] stands for.
pub struct ClaimPlanModel {
    pub cover_ids: Seq<nat>,
    pub amount: nat,
}

impl Model for ClaimPlan {
    type M = ClaimPlanModel;

    open spec fn model(&self) -> ClaimPlanModel {
        ClaimPlanModel { cover_ids: self.cover_ids.model(), amount: self.amount.model() }
    }

    fn duplicate(&self) -> (r: Self) {
        ClaimPlan { cover_ids: self.cover_ids.duplicate(), amount: self.amount.duplicate() }
    }
}

/// The next thing to do in a claim settlement.
#[derive(Debug)]
pub enum ClaimAction {
    /// Ask the cover actor to recompute the capacity of this cover.
    UpdateCover(Nat),
    /// Ask the governance actor to mark the proposal as claimed.
    MarkClaimed,
    /// Ask the ledger to mint this amount to the claimant.
    Mint(Nat),
    /// Nothing: the settlement has ended, with this result.
    Done(Result<(), Error>),
}

/// What a [`ClaimAction`] stands for.
pub enum ClaimActionModel {
    UpdateCover(nat),
    MarkClaimed,
    Mint(nat),
    Done(Result<(), Error>),
}

impl Model for ClaimAction {
    type M = ClaimActionModel;

    open spec fn model(&self) -> ClaimActionModel {
        match self {
            ClaimAction::UpdateCover(id) => ClaimActionModel::UpdateCover(id.model()),
            ClaimAction::MarkClaimed => ClaimActionModel::MarkClaimed,
            ClaimAction::Mint(amount) => ClaimActionModel::Mint(amount.model()),
            ClaimAction::Done(r) => ClaimActionModel::Done(*r),
        }
    }

    fn duplicate(&self) -> (r: Self) {
        match self {
            ClaimAction::UpdateCover(id) => ClaimAction::UpdateCover(id.duplicate()),
            ClaimAction::MarkClaimed => ClaimAction::MarkClaimed,
            ClaimAction::Mint(amount) => ClaimAction::Mint(amount.duplicate()),
            ClaimAction::Done(r) => ClaimAction::Done(*r),
        }
    }
}

/// The yield of one day on `amount` at `apy` percent a year, rounded down at
/// each division.
pub open spec fn daily_payout(amount: nat, apy: nat) -> nat {
    amount * apy / 100 / 365
}

/// The seconds in `days` days.
pub open spec fn days_to_seconds(days: nat) -> nat {
    days * 86400
}

/// The deposit that `deposit` records.
pub open spec fn new_deposit(
    caller: Principal,
    pool_id: nat,
    amount: nat,
    quote: DepositQuoteModel,
    now: nat,
) -> DepositModel {
    DepositModel {
        lp: caller,
        amount,
        pool_id,
        daily_payout: quote.daily_payout,
        status: Status::Active,
        days_left: quote.min_period,
        start_date: now,
        expiry_date: now + days_to_seconds(quote.min_period),
        accrued_payout: 0,
    }
}

/// What comes after `step` remote calls of a claim settlement have been
/// made, the last of which succeeded or not: first one capacity update for
/// each cover of the pool, in order, then the status update, then the mint.
/// The first call that fails ends the settlement with its error.
pub open spec fn claim_step_model(plan: ClaimPlanModel, step: nat, previous_ok: bool) -> ClaimActionModel {
    let n = plan.cover_ids.len();
    if step > 0 && !previous_ok {
        if step - 1 < n {
            ClaimActionModel::Done(Err(Error::CoverUpdateFailed))
        } else if step - 1 == n {
            ClaimActionModel::Done(Err(Error::StatusUpdateFailed))
        } else {
            ClaimActionModel::Done(Err(Error::MintFailed))
        }
    } else if step < n {
        ClaimActionModel::UpdateCover(plan.cover_ids[step as int])
    } else if step == n {
        ClaimActionModel::MarkClaimed
    } else if step == n + 1 {
        ClaimActionModel::Mint(plan.amount)
    } else {
        ClaimActionModel::Done(Ok(()))
    }
}

/// A pool as it is created: empty, active, and with its whole capacity free.
pub open spec fn fresh_pool(
    risk_type: RiskType,
    pool_name: Seq<char>,
    apy: nat,
    min_period: nat,
) -> PoolModel {
    PoolModel {
        pool_name,
        risk_type,
        apy,
        min_period,
        tvl: 0,
        tcp: 0,
        is_active: true,
        percentage_split_balance: 100,
        deposits: Map::empty(),
    }
}

impl StateModel {
    /// The state of a pool manager that has done nothing yet.
    pub open spec fn initial() -> StateModel {
        StateModel {
            pools: Map::empty(),
            pool_count: 0,
            owner: None,
            bq_btc_address: None,
            cover_address: None,
            gov_address: None,
            participants: Seq::empty(),
            participation: Map::empty(),
            pool_covers: Map::empty(),
        }
    }

    /// No pool has allotted more than its whole capacity, nor has it more
    /// than its whole capacity free: every percentage split lies between 0
    /// and 100. (A pool's value locked is a natural number, and so never
    /// negative.)
    pub open spec fn splits_in_range(self) -> bool {
        forall|id: nat| #[trigger]
            self.pools.contains_key(id) ==> self.pools[id].percentage_split_balance <= 100
    }

    /// The state with pool `id` replaced by `pool`.
    pub open spec fn with_pool(self, id: nat, pool: PoolModel) -> StateModel {
        StateModel { pools: self.pools.insert(id, pool), ..self }
    }

    /// The state after [`init`].
    pub open spec fn init(self, owner: Principal, bq_btc: Principal) -> StateModel {
        StateModel { owner: Some(owner), bq_btc_address: Some(bq_btc), ..self }
    }

    /// The state after [`create_pool`], and what it returns. A call that is
    /// refused leaves the state as it was.
    pub open spec fn create_pool(
        self,
        caller: Principal,
        risk_type: RiskType,
        pool_name: Seq<char>,
        apy: nat,
        min_period: nat,
    ) -> (StateModel, Result<(), Error>) {
        if self.owner != Some(caller) {
            (self, Err(Error::NotOwner))
        } else {
            (
                StateModel {
                    pools: self.pools.insert(
                        self.pool_count + 1,
                        fresh_pool(risk_type, pool_name, apy, min_period),
                    ),
                    pool_count: self.pool_count + 1,
                    pool_covers: self.pool_covers.insert(self.pool_count + 1, Seq::empty()),
                    ..self
                },
                Ok(()),
            )
        }
    }

    /// The state after [`update_pool`], and what it returns. A call that is
    /// refused leaves the state as it was.
    pub open spec fn update_pool(self, caller: Principal, pool_id: nat, apy: nat, min_period: nat) -> (
        StateModel,
        Result<(), Error>,
    ) {
        if self.owner != Some(caller) {
            (self, Err(Error::NotOwner))
        } else if !self.pools.contains_key(pool_id) {
            (self, Err(Error::PoolNotFound))
        } else {
            (self.with_pool(pool_id, PoolModel { apy, min_period, ..self.pools[pool_id] }), Ok(()))
        }
    }

    /// The state after [`reduce_percentage_split`], and what it returns. A call that is
    /// refused leaves the state as it was.
    pub open spec fn reduce_percentage_split(self, caller: Principal, pool_id: nat, pct: nat) -> (
        StateModel,
        Result<(), Error>,
    ) {
        if self.cover_address != Some(caller) {
            (self, Err(Error::NotCoverContract))
        } else if !self.pools.contains_key(pool_id) {
            (self, Err(Error::PoolNotFound))
        } else if pct > self.pools[pool_id].percentage_split_balance
            || self.pools[pool_id].percentage_split_balance - pct > 100 {
            (self, Err(Error::SplitOutOfRange))
        } else {
            (
                self.with_pool(
                    pool_id,
                    PoolModel {
                        percentage_split_balance: (self.pools[pool_id].percentage_split_balance
                            - pct) as nat,
                        ..self.pools[pool_id]
                    },
                ),
                Ok(()),
            )
        }
    }

    /// The state after [`increase_percentage_split`], and what it returns. A call that is
    /// refused leaves the state as it was.
    pub open spec fn increase_percentage_split(self, caller: Principal, pool_id: nat, pct: nat) -> (
        StateModel,
        Result<(), Error>,
    ) {
        if self.cover_address != Some(caller) {
            (self, Err(Error::NotCoverContract))
        } else if !self.pools.contains_key(pool_id) {
            (self, Err(Error::PoolNotFound))
        } else if self.pools[pool_id].percentage_split_balance + pct > 100 {
            (self, Err(Error::SplitOutOfRange))
        } else {
            (
                self.with_pool(
                    pool_id,
                    PoolModel {
                        percentage_split_balance: self.pools[pool_id].percentage_split_balance
                            + pct,
                        ..self.pools[pool_id]
                    },
                ),
                Ok(()),
            )
        }
    }

    /// The state after [`deactivate_pool`], and what it returns. A call that is
    /// refused leaves the state as it was.
    pub open spec fn deactivate_pool(self, caller: Principal, pool_id: nat) -> (
        StateModel,
        Result<(), Error>,
    ) {
        if self.owner != Some(caller) {
            (self, Err(Error::NotOwner))
        } else if !self.pools.contains_key(pool_id) {
            (self, Err(Error::PoolNotFound))
        } else {
            (self.with_pool(pool_id, PoolModel { is_active: false, ..self.pools[pool_id] }), Ok(()))
        }
    }

    /// What [`deposit_quote`] returns.
    pub open spec fn deposit_quote(self, pool_id: nat, amount: nat) -> Result<
        DepositQuoteModel,
        Error,
    > {
        if !self.pools.contains_key(pool_id) {
            Err(Error::PoolNotFound)
        } else if !self.pools[pool_id].is_active {
            Err(Error::PoolInactive)
        } else if self.bq_btc_address is None {
            Err(Error::LedgerNotSet)
        } else {
            Ok(
                DepositQuoteModel {
                    ledger: self.bq_btc_address->0,
                    daily_payout: daily_payout(amount, self.pools[pool_id].apy),
                    min_period: self.pools[pool_id].min_period,
                },
            )
        }
    }

    /// The state after [`deposit`], and what it returns. A call that is
    /// refused leaves the state as it was.
    pub open spec fn deposit(
        self,
        caller: Principal,
        pool_id: nat,
        amount: nat,
        quote: DepositQuoteModel,
        burned: bool,
        now: nat,
    ) -> (StateModel, Result<(), Error>) {
        if !burned {
            (self, Err(Error::BurnFailed))
        } else if !self.pools.contains_key(pool_id) {
            (self, Err(Error::PoolNotFound))
        } else {
            let pool = self.pools[pool_id];
            (
                StateModel {
                    pools: self.pools.insert(
                        pool_id,
                        PoolModel {
                            tvl: pool.tvl + amount,
                            deposits: pool.deposits.insert(
                                caller,
                                new_deposit(caller, pool_id, amount, quote, now),
                            ),
                            ..pool
                        },
                    ),
                    participants: noted(self.participants, caller),
                    participation: counted(self.participation, caller),
                    ..self
                },
                Ok(()),
            )
        }
    }

    /// Why a withdrawal is refused, if it is.
    pub open spec fn withdraw_refusal(self, caller: Principal, pool_id: nat, amount: nat, now: nat) -> Option<
        Error,
    > {
        if self.bq_btc_address is None {
            Some(Error::LedgerNotSet)
        } else if !self.pools.contains_key(pool_id) {
            Some(Error::PoolNotFound)
        } else if !self.pools[pool_id].is_active {
            Some(Error::PoolInactive)
        } else if !self.pools[pool_id].deposits.contains_key(caller) {
            Some(Error::DepositNotFound)
        } else {
            let deposit = self.pools[pool_id].deposits[caller];
            if now < deposit.expiry_date {
                Some(Error::DepositLocked)
            } else if deposit.status == Status::Withdrawn {
                Some(Error::AlreadyWithdrawn)
            } else if deposit.amount == 0 {
                Some(Error::EmptyDeposit)
            } else if amount == 0 {
                Some(Error::ZeroAmount)
            } else if amount > deposit.amount {
                Some(Error::ExceedsDeposit)
            } else if amount > self.pools[pool_id].tvl {
                Some(Error::InsufficientPoolFunds)
            } else {
                None
            }
        }
    }

    /// The state after [`withdraw`], and what it returns. A call that is
    /// refused leaves the state as it was.
    pub open spec fn withdraw(self, caller: Principal, pool_id: nat, amount: nat, now: nat) -> (
        StateModel,
        Result<MintOrderModel, Error>,
    ) {
        match self.withdraw_refusal(caller, pool_id, amount, now) {
            Some(e) => (self, Err(e)),
            None => {
                let pool = self.pools[pool_id];
                let deposit = pool.deposits[caller];
                (
                    self.with_pool(
                        pool_id,
                        PoolModel {
                            tvl: (pool.tvl - amount) as nat,
                            deposits: pool.deposits.insert(
                                caller,
                                DepositModel { amount: (deposit.amount - amount) as nat, ..deposit },
                            ),
                            ..pool
                        },
                    ),
                    Ok(MintOrderModel { ledger: self.bq_btc_address->0, to: caller, amount }),
                )
            },
        }
    }

    /// The state after [`settle_withdraw`], and what it returns. Where the
    /// ledger minted, the withdrawal is done and nothing changes. Where it
    /// did not, the amount goes back to the pool and to the caller's deposit.
    pub open spec fn settle_withdraw(
        self,
        caller: Principal,
        pool_id: nat,
        amount: nat,
        minted: bool,
    ) -> (StateModel, Result<(), Error>) {
        if minted {
            (self, Ok(()))
        } else if !self.pools.contains_key(pool_id) {
            (self, Err(Error::MintFailed))
        } else {
            let pool = self.pools[pool_id];
            (
                self.with_pool(
                    pool_id,
                    PoolModel {
                        tvl: pool.tvl + amount,
                        deposits: if pool.deposits.contains_key(caller) {
                            pool.deposits.insert(
                                caller,
                                DepositModel {
                                    amount: pool.deposits[caller].amount + amount,
                                    ..pool.deposits[caller]
                                },
                            )
                        } else {
                            pool.deposits
                        },
                        ..pool
                    },
                ),
                Err(Error::MintFailed),
            )
        }
    }

    /// What [`claim_contacts`] returns.
    pub open spec fn claim_contacts(self) -> Result<ClaimContacts, Error> {
        if self.gov_address is None {
            Err(Error::GovernanceNotSet)
        } else if self.bq_btc_address is None {
            Err(Error::LedgerNotSet)
        } else if self.cover_address is None {
            Err(Error::CoverContractNotSet)
        } else {
            Ok(
                ClaimContacts {
                    governance: self.gov_address->0,
                    ledger: self.bq_btc_address->0,
                    cover: self.cover_address->0,
                },
            )
        }
    }

    /// Why a claim is refused before anything is changed, if it is.
    pub open spec fn claim_refusal(self, caller: Principal, proposal: Option<ProposalModel>) -> Option<
        Error,
    > {
        match proposal {
            None => Some(Error::ProposalQueryFailed),
            Some(p) => {
                let pool_id = p.proposal_param.pool_id;
                if p.status != ProposalStatus::Approved || p.executed {
                    Some(Error::ProposalNotApproved)
                } else if p.proposal_param.user != caller {
                    Some(Error::NotClaimant)
                } else if !self.pools.contains_key(pool_id) {
                    Some(Error::PoolNotFound)
                } else if !self.pools[pool_id].is_active {
                    Some(Error::PoolInactive)
                } else if self.pools[pool_id].tvl < p.proposal_param.claim_amount {
                    Some(Error::InsufficientPoolFunds)
                } else {
                    None
                }
            },
        }
    }

    /// The state once pool `pool_id` has paid `amount`: its value locked is
    /// down by the amount, its claims paid are up by it.
    pub open spec fn debited(self, pool_id: nat, amount: nat) -> StateModel {
        let pool = self.pools[pool_id];
        self.with_pool(
            pool_id,
            PoolModel { tvl: (pool.tvl - amount) as nat, tcp: pool.tcp + amount, ..pool },
        )
    }

    /// The covers drawn against a pool; none, where no list is kept for it.
    pub open spec fn covers_of(self, pool_id: nat) -> Seq<CoverModel> {
        if self.pool_covers.contains_key(pool_id) {
            self.pool_covers[pool_id]
        } else {
            Seq::empty()
        }
    }

    /// The state after [`claim_proposal_funds`], and what it returns. A claim
    /// that is refused leaves the state as it was. One that is not is
    /// debited, and the plan names every cover of the paying pool.
    pub open spec fn claim_proposal_funds(self, caller: Principal, proposal: Option<ProposalModel>) -> (
        StateModel,
        Result<ClaimPlanModel, Error>,
    ) {
        match self.claim_refusal(caller, proposal) {
            Some(e) => (self, Err(e)),
            None => {
                let param = proposal->0.proposal_param;
                (
                    self.debited(param.pool_id, param.claim_amount),
                    Ok(
                        ClaimPlanModel {
                            cover_ids: self.covers_of(param.pool_id).map_values(
                                |c: CoverModel| c.id,
                            ),
                            amount: param.claim_amount,
                        },
                    ),
                )
            },
        }
    }

    /// Whether one of `covers` has the id `id`.
    pub open spec fn has_cover(covers: Seq<CoverModel>, id: nat) -> bool {
        exists|i: int| 0 <= i < covers.len() && (#[trigger] covers[i]).id == id
    }

    /// Where the first of `covers` with the id `id` stands.
    pub open spec fn first_with_id(covers: Seq<CoverModel>, id: nat) -> int {
        choose|i: int|
            0 <= i < covers.len() && (#[trigger] covers[i]).id == id && forall|j: int|
                0 <= j < i ==> (#[trigger] covers[j]).id != id
    }

    /// The state after [`update_pool_covers`], and what it returns. A call that is
    /// refused leaves the state as it was.
    pub open spec fn update_pool_covers(self, caller: Principal, pool_id: nat, new_cover: CoverModel) -> (
        StateModel,
        Result<(), Error>,
    ) {
        if self.cover_address != Some(caller) {
            (self, Err(Error::NotCoverContract))
        } else if !self.pool_covers.contains_key(pool_id) {
            (self, Err(Error::PoolCoversNotFound))
        } else if !Self::has_cover(self.pool_covers[pool_id], new_cover.id) {
            (self, Err(Error::CoverNotInPool))
        } else {
            let covers = self.pool_covers[pool_id];
            (
                StateModel {
                    pool_covers: self.pool_covers.insert(
                        pool_id,
                        covers.update(Self::first_with_id(covers, new_cover.id), new_cover),
                    ),
                    ..self
                },
                Ok(()),
            )
        }
    }

    /// The state after [`add_pool_covers`], and what it returns. A call that is
    /// refused leaves the state as it was.
    pub open spec fn add_pool_covers(self, caller: Principal, pool_id: nat, new_cover: CoverModel) -> (
        StateModel,
        Result<(), Error>,
    ) {
        if self.cover_address != Some(caller) {
            (self, Err(Error::NotCoverContract))
        } else if !self.pool_covers.contains_key(pool_id) {
            (self, Err(Error::PoolCoversNotFound))
        } else {
            (
                StateModel {
                    pool_covers: self.pool_covers.insert(
                        pool_id,
                        self.pool_covers[pool_id].push(new_cover),
                    ),
                    ..self
                },
                Ok(()),
            )
        }
    }

    /// A pool as its depositor `user` sees it.
    pub open spec fn pool_info(self, pool_id: nat, user: Principal) -> PoolInfoModel {
        let pool = self.pools[pool_id];
        let deposit = pool.deposits[user];
        PoolInfoModel {
            pool_name: pool.pool_name,
            pool_id,
            daily_payout: deposit.daily_payout,
            deposit_amount: deposit.amount,
            apy: pool.apy,
            min_period: pool.min_period,
            tvl: pool.tvl,
            tcp: pool.tcp,
            is_active: pool.is_active,
            accrued_payout: deposit.accrued_payout,
        }
    }

    /// The pools in which `user` has a deposit, each as the user sees it.
    pub open spec fn pools_of(self, user: Principal) -> Map<nat, PoolInfoModel> {
        Map::new(
            |id: nat| self.pools.contains_key(id) && self.pools[id].deposits.contains_key(user),
            |id: nat| self.pool_info(id, user),
        )
    }

    /// What [`get_user_deposit`] returns.
    pub open spec fn get_user_deposit(self, pool_id: nat, user: Principal) -> Result<
        DepositModel,
        Error,
    > {
        if !self.pools.contains_key(pool_id) {
            Err(Error::PoolNotFound)
        } else if !self.pools[pool_id].deposits.contains_key(user) {
            Err(Error::DepositNotFound)
        } else {
            Ok(self.pools[pool_id].deposits[user])
        }
    }

    /// The state after [`set_owner`], and what it returns. A call that is
    /// refused leaves the state as it was.
    pub open spec fn set_owner(self, caller: Principal, new_owner: Principal) -> (
        StateModel,
        Result<(), Error>,
    ) {
        if self.owner != Some(caller) {
            (self, Err(Error::NotOwner))
        } else {
            (StateModel { owner: Some(new_owner), ..self }, Ok(()))
        }
    }
}

impl State {
    /// A pool manager that has done nothing yet.
    pub fn new() -> (r: State)
        ensures
            r.model() == StateModel::initial(),
            r.model().splits_in_range(),
    {
        let r = State {
            pools: AssocMap::new(),
            pool_count: nat_from_u64(0),
            owner: None,
            bq_btc_address: None,
            cover_address: None,
            gov_address: None,
            participants: Vec::new(),
            participation: AssocMap::new(),
            pool_covers: AssocMap::new(),
        };
        assert(r.participants.model() =~= Seq::empty());
        r
    }
}

/// Sets the owner and the ledger.
pub fn init(state: &mut State, owner: Principal, bq_btc: Principal)
    ensures
        final(state).model() == old(state).model().init(owner, bq_btc),
        old(state).model().splits_in_range() ==> final(state).model().splits_in_range(),
{
    proof {
        if state.model().splits_in_range() {
            lemma_init_keeps_splits(state.model(), owner, bq_btc);
        }
    }
    state.owner = Some(owner);
    state.bq_btc_address = Some(bq_btc);
}

/// Creates a pool under the next id. Only the owner may.
pub fn create_pool(
    state: &mut State,
    caller: Principal,
    risk_type: RiskType,
    pool_name: String,
    apy: Nat,
    min_period: Nat,
) -> (r: Result<(), Error>)
    ensures
        (final(state).model(), r) == old(state).model().create_pool(
            caller,
            risk_type,
            pool_name@,
            val(&apy),
            val(&min_period),
        ),
        old(state).model().splits_in_range() ==> final(state).model().splits_in_range(),
{
    proof {
        if state.model().splits_in_range() {
            lemma_create_pool_keeps_splits(
                state.model(),
                caller,
                risk_type,
                pool_name@,
                val(&apy),
                val(&min_period),
            );
        }
    }
    if !holds(&state.owner, &caller) {
        return Err(Error::NotOwner);
    }
    let pool_count = nat_add(state.pool_count.clone(), nat_from_u64(1));
    let new_pool = Pool {
        pool_name,
        risk_type,
        apy,
        min_period,
        tvl: nat_from_u64(0),
        tcp: nat_from_u64(0),
        is_active: true,
        percentage_split_balance: nat_from_u64(100),
        deposits: AssocMap::new(),
    };
    state.pools.insert(pool_count.clone(), new_pool);
    let no_covers: Vec<Cover> = Vec::new();
    proof {
        assert(no_covers.model() =~= Seq::<CoverModel>::empty());
    }
    state.pool_covers.insert(pool_count.clone(), no_covers);
    state.pool_count = pool_count;
    Ok(())
}

/// Changes a pool's yield and lock period. Only the owner may.
pub fn update_pool(state: &mut State, caller: Principal, pool_id: Nat, apy: Nat, min_period: Nat) -> (r:
    Result<(), Error>)
    ensures
        (final(state).model(), r) == old(state).model().update_pool(
            caller,
            val(&pool_id),
            val(&apy),
            val(&min_period),
        ),
        old(state).model().splits_in_range() ==> final(state).model().splits_in_range(),
{
    proof {
        if state.model().splits_in_range() {
            lemma_update_pool_keeps_splits(
                state.model(),
                caller,
                val(&pool_id),
                val(&apy),
                val(&min_period),
            );
        }
    }
    if !holds(&state.owner, &caller) {
        return Err(Error::NotOwner);
    }
    match state.pools.get_mut(&pool_id) {
        Some(pool) => {
            pool.apy = apy;
            pool.min_period = min_period;
            Ok(())
        },
        None => Err(Error::PoolNotFound),
    }
}

/// Takes `percentage_split` percent out of a pool's free capacity. Only the
/// cover actor may, and only as far as the balance stays between 0 and 100.
pub fn reduce_percentage_split(
    state: &mut State,
    caller: Principal,
    pool_id: Nat,
    percentage_split: Nat,
) -> (r: Result<(), Error>)
    ensures
        (final(state).model(), r) == old(state).model().reduce_percentage_split(
            caller,
            val(&pool_id),
            val(&percentage_split),
        ),
        old(state).model().splits_in_range() ==> final(state).model().splits_in_range(),
{
    proof {
        if state.model().splits_in_range() {
            lemma_reduce_percentage_split_keeps_splits(
                state.model(),
                caller,
                val(&pool_id),
                val(&percentage_split),
            );
        }
    }
    if !holds(&state.cover_address, &caller) {
        return Err(Error::NotCoverContract);
    }
    match state.pools.get_mut(&pool_id) {
        Some(pool) => {
            proof {
                lemma_insert_same(old(state).model().pools, val(&pool_id));
            }
            if nat_lt(&pool.percentage_split_balance, &percentage_split) {
                return Err(Error::SplitOutOfRange);
            }
            let balance = nat_sub(pool.percentage_split_balance.clone(), percentage_split);
            if nat_lt(&nat_from_u64(100), &balance) {
                return Err(Error::SplitOutOfRange);
            }
            pool.percentage_split_balance = balance;
            Ok(())
        },
        None => Err(Error::PoolNotFound),
    }
}

/// Gives `percentage_split` percent back to a pool's free capacity. Only the
/// cover actor may, and only as far as the balance stays between 0 and 100.
pub fn increase_percentage_split(
    state: &mut State,
    caller: Principal,
    pool_id: Nat,
    percentage_split: Nat,
) -> (r: Result<(), Error>)
    ensures
        (final(state).model(), r) == old(state).model().increase_percentage_split(
            caller,
            val(&pool_id),
            val(&percentage_split),
        ),
        old(state).model().splits_in_range() ==> final(state).model().splits_in_range(),
{
    proof {
        if state.model().splits_in_range() {
            lemma_increase_percentage_split_keeps_splits(
                state.model(),
                caller,
                val(&pool_id),
                val(&percentage_split),
            );
        }
    }
    if !holds(&state.cover_address, &caller) {
        return Err(Error::NotCoverContract);
    }
    match state.pools.get_mut(&pool_id) {
        Some(pool) => {
            proof {
                lemma_insert_same(old(state).model().pools, val(&pool_id));
            }
            let balance = nat_add(pool.percentage_split_balance.clone(), percentage_split);
            if nat_lt(&nat_from_u64(100), &balance) {
                return Err(Error::SplitOutOfRange);
            }
            pool.percentage_split_balance = balance;
            Ok(())
        },
        None => Err(Error::PoolNotFound),
    }
}

/// Closes a pool to deposits, withdrawals and claims. Only the owner may.
pub fn deactivate_pool(state: &mut State, caller: Principal, pool_id: Nat) -> (r: Result<(), Error>)
    ensures
        (final(state).model(), r) == old(state).model().deactivate_pool(caller, val(&pool_id)),
        old(state).model().splits_in_range() ==> final(state).model().splits_in_range(),
{
    proof {
        if state.model().splits_in_range() {
            lemma_deactivate_pool_keeps_splits(state.model(), caller, val(&pool_id));
        }
    }
    if !holds(&state.owner, &caller) {
        return Err(Error::NotOwner);
    }
    match state.pools.get_mut(&pool_id) {
        Some(pool) => {
            pool.is_active = false;
            Ok(())
        },
        None => Err(Error::PoolNotFound),
    }
}

/// The quote for a deposit of `amount` into pool `pool_id`: the first step
/// of a deposit, made before the ledger is asked to burn the tokens.
pub fn deposit_quote(state: &State, pool_id: &Nat, amount: &Nat) -> (r: Result<DepositQuote, Error>)
    ensures
        r.model() == state.model().deposit_quote(val(pool_id), val(amount)),
{
    let pool = match state.pools.get(pool_id) {
        Some(pool) => pool,
        None => { return Err(Error::PoolNotFound); },
    };
    if !pool.is_active {
        return Err(Error::PoolInactive);
    }
    let ledger = match state.bq_btc_address {
        Some(ledger) => ledger,
        None => { return Err(Error::LedgerNotSet); },
    };
    let yearly = nat_div(nat_mul(amount.clone(), pool.apy.clone()), nat_from_u64(100));
    let daily = nat_div(yearly, nat_from_u64(365));
    Ok(DepositQuote { ledger, daily_payout: daily, min_period: pool.min_period.clone() })
}

/// Credits a deposit, overwriting any earlier deposit of the caller in the
/// pool. `burned` says whether the ledger burned the caller's tokens; if it
/// did not, nothing changes.
pub fn deposit(
    state: &mut State,
    caller: Principal,
    pool_id: Nat,
    amount: Nat,
    quote: DepositQuote,
    burned: bool,
    now: u64,
) -> (r: Result<(), Error>)
    ensures
        (final(state).model(), r) == old(state).model().deposit(
            caller,
            val(&pool_id),
            val(&amount),
            quote.model(),
            burned,
            now as nat,
        ),
        old(state).model().splits_in_range() ==> final(state).model().splits_in_range(),
{
    proof {
        if state.model().splits_in_range() {
            lemma_deposit_keeps_splits(
                state.model(),
                caller,
                val(&pool_id),
                val(&amount),
                quote.model(),
                burned,
                now as nat,
            );
        }
    }
    if !burned {
        return Err(Error::BurnFailed);
    }
    match state.pools.get_mut(&pool_id) {
        Some(pool) => {
            pool.tvl = nat_add(pool.tvl.clone(), amount.clone());
            let lock = nat_mul(quote.min_period.clone(), nat_from_u64(86400));
            let deposit = Deposit {
                lp: caller,
                amount,
                pool_id: pool_id.clone(),
                daily_payout: quote.daily_payout,
                status: Status::Active,
                days_left: quote.min_period,
                start_date: nat_from_u64(now),
                expiry_date: nat_add(nat_from_u64(now), lock),
                accrued_payout: nat_from_u64(0),
            };
            pool.deposits.insert(caller, deposit);
        },
        None => { return Err(Error::PoolNotFound); },
    }
    record_participation(&mut state.participants, &mut state.participation, caller);
    Ok(())
}

/// Takes `amount` out of the caller's deposit and out of the pool, and says
/// what the ledger is to mint in return. The debit is made before the mint;
/// [`settle_withdraw`] takes it back if the mint fails.
pub fn withdraw(state: &mut State, caller: Principal, pool_id: Nat, amount: Nat, now: u64) -> (r:
    Result<MintOrder, Error>)
    ensures
        (final(state).model(), r.model()) == old(state).model().withdraw(
            caller,
            val(&pool_id),
            val(&amount),
            now as nat,
        ),
        old(state).model().splits_in_range() ==> final(state).model().splits_in_range(),
{
    proof {
        if state.model().splits_in_range() {
            lemma_withdraw_keeps_splits(
                state.model(),
                caller,
                val(&pool_id),
                val(&amount),
                now as nat,
            );
        }
    }
    let ledger = match state.bq_btc_address {
        Some(ledger) => ledger,
        None => { return Err(Error::LedgerNotSet); },
    };
    match state.pools.get(&pool_id) {
        None => { return Err(Error::PoolNotFound); },
        Some(pool) => {
            if !pool.is_active {
                return Err(Error::PoolInactive);
            }
            match pool.deposits.get(&caller) {
                None => { return Err(Error::DepositNotFound); },
                Some(deposit) => {
                    if nat_lt(&nat_from_u64(now), &deposit.expiry_date) {
                        return Err(Error::DepositLocked);
                    }
                    if deposit.status == Status::Withdrawn {
                        return Err(Error::AlreadyWithdrawn);
                    }
                    let zero = nat_from_u64(0);
                    if !nat_lt(&zero, &deposit.amount) {
                        return Err(Error::EmptyDeposit);
                    }
                    if !nat_lt(&zero, &amount) {
                        return Err(Error::ZeroAmount);
                    }
                    if nat_lt(&deposit.amount, &amount) {
                        return Err(Error::ExceedsDeposit);
                    }
                    if nat_lt(&pool.tvl, &amount) {
                        return Err(Error::InsufficientPoolFunds);
                    }
                },
            }
        },
    }
    match state.pools.get_mut(&pool_id) {
        None => { return Err(Error::PoolNotFound); },
        Some(pool) => {
            pool.tvl = nat_sub(pool.tvl.clone(), amount.clone());
            match pool.deposits.get_mut(&caller) {
                None => { return Err(Error::DepositNotFound); },
                Some(deposit) => {
                    deposit.amount = nat_sub(deposit.amount.clone(), amount.clone());
                },
            }
        },
    }
    Ok(MintOrder { ledger, to: caller, amount })
}

/// Ends a withdrawal once the ledger has answered. `minted` says whether it
/// minted the amount that [`withdraw`] ordered. Where it did, nothing
/// changes. Where it did not, the failure is reported and the amount is put
/// back: the pool's value locked and the caller's deposit are what they were
/// before the withdrawal.
pub fn settle_withdraw(
    state: &mut State,
    caller: Principal,
    pool_id: Nat,
    amount: Nat,
    minted: bool,
) -> (r: Result<(), Error>)
    ensures
        (final(state).model(), r) == old(state).model().settle_withdraw(
            caller,
            val(&pool_id),
            val(&amount),
            minted,
        ),
        old(state).model().splits_in_range() ==> final(state).model().splits_in_range(),
{
    proof {
        if state.model().splits_in_range() {
            lemma_settle_withdraw_keeps_splits(
                state.model(),
                caller,
                val(&pool_id),
                val(&amount),
                minted,
            );
        }
    }
    if minted {
        return Ok(());
    }
    match state.pools.get_mut(&pool_id) {
        None => {},
        Some(pool) => {
            pool.tvl = nat_add(pool.tvl.clone(), amount.clone());
            match pool.deposits.get_mut(&caller) {
                None => {},
                Some(deposit) => {
                    deposit.amount = nat_add(deposit.amount.clone(), amount);
                },
            }
        },
    }
    Err(Error::MintFailed)
}

/// The actors that a claim settlement talks to, if all three are set.
pub fn claim_contacts(state: &State) -> (r: Result<ClaimContacts, Error>)
    ensures
        r == state.model().claim_contacts(),
{
    let governance = match state.gov_address {
        Some(p) => p,
        None => { return Err(Error::GovernanceNotSet); },
    };
    let ledger = match state.bq_btc_address {
        Some(p) => p,
        None => { return Err(Error::LedgerNotSet); },
    };
    let cover = match state.cover_address {
        Some(p) => p,
        None => { return Err(Error::CoverContractNotSet); },
    };
    Ok(ClaimContacts { governance, ledger, cover })
}

/// Settles an approved claim on the pool's side. `proposal` is what the
/// governance actor returned for the proposal, or `None` if it returned
/// nothing. The caller must be the claimant, the proposal approved and not
/// executed, the paying pool active and rich enough. The pool is then debited:
/// its value locked goes down by the claim and its claims paid go up by it.
/// What remains to be done with the other actors comes back as a plan, which
/// names every cover of the pool. The debit stands whatever becomes of those
/// later steps.
pub fn claim_proposal_funds(state: &mut State, caller: Principal, proposal: Option<Proposal>) -> (r:
    Result<ClaimPlan, Error>)
    ensures
        (final(state).model(), r.model()) == old(state).model().claim_proposal_funds(
            caller,
            proposal.model(),
        ),
        old(state).model().splits_in_range() ==> final(state).model().splits_in_range(),
{
    proof {
        if state.model().splits_in_range() {
            lemma_claim_proposal_funds_keeps_splits(state.model(), caller, proposal.model());
        }
    }
    let proposal = match proposal {
        Some(p) => p,
        None => { return Err(Error::ProposalQueryFailed); },
    };
    if proposal.status != ProposalStatus::Approved || proposal.executed {
        return Err(Error::ProposalNotApproved);
    }
    if !principal_eq(&proposal.proposal_param.user, &caller) {
        return Err(Error::NotClaimant);
    }
    let pool_id = proposal.proposal_param.pool_id;
    let claim_amount = proposal.proposal_param.claim_amount;
    match state.pools.get_mut(&pool_id) {
        None => { return Err(Error::PoolNotFound); },
        Some(pool) => {
            proof {
                lemma_insert_same(old(state).model().pools, val(&pool_id));
            }
            if !pool.is_active {
                return Err(Error::PoolInactive);
            }
            if nat_lt(&pool.tvl, &claim_amount) {
                return Err(Error::InsufficientPoolFunds);
            }
            pool.tcp = nat_add(pool.tcp.clone(), claim_amount.clone());
            pool.tvl = nat_sub(pool.tvl.clone(), claim_amount.clone());
        },
    }
    let mut cover_ids: Vec<Nat> = Vec::new();
    match state.pool_covers.get(&pool_id) {
        Some(covers) => {
            let mut i: usize = 0;
            while i < covers.len()
                invariant
                    i <= covers@.len(),
                    cover_ids@.len() == i,
                    forall|j: int| 0 <= j < i ==> val(&cover_ids@[j]) == val(&covers@[j].id),
                decreases covers@.len() - i,
            {
                cover_ids.push(covers[i].id.clone());
                i += 1;
            }
            proof {
                assert(cover_ids.model() =~= covers.model().map_values(|c: CoverModel| c.id));
            }
        },
        None => {
            proof {
                assert(cover_ids.model() =~= Seq::<CoverModel>::empty().map_values(
                    |c: CoverModel| c.id,
                ));
            }
        },
    }
    Ok(ClaimPlan { cover_ids, amount: claim_amount })
}

/// The next action of a claim settlement. `step` counts the remote calls
/// made so far for this plan, and `previous_ok` says whether the last of them
/// succeeded (it is not looked at while `step` is 0).
pub fn claim_step(plan: &ClaimPlan, step: usize, previous_ok: bool) -> (r: ClaimAction)
    ensures
        r.model() == claim_step_model(plan.model(), step as nat, previous_ok),
{
    let n: usize = plan.cover_ids.len();
    if step > 0 && !previous_ok {
        if step - 1 < n {
            ClaimAction::Done(Err(Error::CoverUpdateFailed))
        } else if step - 1 == n {
            ClaimAction::Done(Err(Error::StatusUpdateFailed))
        } else {
            ClaimAction::Done(Err(Error::MintFailed))
        }
    } else if step < n {
        ClaimAction::UpdateCover(plan.cover_ids[step].clone())
    } else if step == n {
        ClaimAction::MarkClaimed
    } else if step - n == 1 {
        ClaimAction::Mint(plan.amount.clone())
    } else {
        ClaimAction::Done(Ok(()))
    }
}

/// The pool of the given id.
pub fn get_pool(state: &State, pool_id: &Nat) -> (r: Result<Pool, Error>)
    ensures
        r.model() == if state.model().pools.contains_key(val(pool_id)) {
            Ok::<PoolModel, Error>(state.model().pools[val(pool_id)])
        } else {
            Err(Error::PoolNotFound)
        },
{
    match state.pools.get(pool_id) {
        Some(pool) => Ok(pool.clone()),
        None => Err(Error::PoolNotFound),
    }
}

/// All pools with their ids, each once.
pub fn get_all_pools(state: &State) -> (r: Vec<(Nat, Pool)>)
    ensures
        lists_entries(r.model(), state.model().pools),
{
    state.pools.entries()
}

/// Puts `new_cover` in the place of the first of `covers` that has its id,
/// if there is one, and says whether there was.
pub fn replace_cover(covers: &mut Vec<Cover>, new_cover: Cover) -> (found: bool)
    ensures
        found == StateModel::has_cover(old(covers).model(), new_cover.model().id),
        found ==> final(covers).model() == old(covers).model().update(
            StateModel::first_with_id(old(covers).model(), new_cover.model().id),
            new_cover.model(),
        ),
        !found ==> final(covers).model() == old(covers).model(),
{
    let ghost before = covers.model();
    let ghost replacement = new_cover.model();
    let ghost id = replacement.id;
    let mut i: usize = 0;
    while i < covers.len()
        invariant
            i <= covers@.len(),
            covers.model() == before,
            before == old(covers).model(),
            replacement == new_cover.model(),
            id == replacement.id,
            forall|j: int| 0 <= j < i ==> (#[trigger] before[j]).id != id,
        decreases covers@.len() - i,
    {
        if nat_eq(&covers[i].id, &new_cover.id) {
            proof {
                assert(covers.model()[i as int] == covers@[i as int].model());
                assert(before[i as int].id == id);
                assert(StateModel::has_cover(before, id));
                let first = StateModel::first_with_id(before, id);
                assert(0 <= first < before.len() && before[first].id == id && forall|j: int|
                    0 <= j < first ==> (#[trigger] before[j]).id != id);
                if first < i {
                    assert(before[first].id != id);
                }
                if i < first {
                    assert(before[i as int].id != id);
                }
                assert(first == i);
            }
            covers.set(i, new_cover);
            proof {
                assert(covers.model() =~= before.update(i as int, replacement));
            }
            return true;
        }
        proof {
            assert(covers.model()[i as int] == covers@[i as int].model());
        }
        i += 1;
    }
    proof {
        if StateModel::has_cover(before, id) {
            let w = choose|w: int| 0 <= w < before.len() && (#[trigger] before[w]).id == id;
            assert(before[w].id != id);
        }
    }
    false
}

/// Replaces a cover in a pool's list by a newer version of it. Only the
/// cover actor may.
pub fn update_pool_covers(state: &mut State, caller: Principal, pool_id: Nat, new_cover: Cover) -> (r:
    Result<(), Error>)
    ensures
        (final(state).model(), r) == old(state).model().update_pool_covers(
            caller,
            val(&pool_id),
            new_cover.model(),
        ),
        old(state).model().splits_in_range() ==> final(state).model().splits_in_range(),
{
    proof {
        if state.model().splits_in_range() {
            lemma_same_pools_same_splits(
                state.model(),
                state.model().update_pool_covers(caller, val(&pool_id), new_cover.model()).0,
            );
        }
    }
    if !holds(&state.cover_address, &caller) {
        return Err(Error::NotCoverContract);
    }
    match state.pool_covers.get_mut(&pool_id) {
        None => Err(Error::PoolCoversNotFound),
        Some(covers) => {
            proof {
                lemma_insert_same(old(state).model().pool_covers, val(&pool_id));
            }
            if replace_cover(covers, new_cover) {
                Ok(())
            } else {
                Err(Error::CoverNotInPool)
            }
        },
    }
}

/// Adds a cover to a pool's list. Only the cover actor may.
pub fn add_pool_covers(state: &mut State, caller: Principal, pool_id: Nat, new_cover: Cover) -> (r:
    Result<(), Error>)
    ensures
        (final(state).model(), r) == old(state).model().add_pool_covers(
            caller,
            val(&pool_id),
            new_cover.model(),
        ),
        old(state).model().splits_in_range() ==> final(state).model().splits_in_range(),
{
    proof {
        if state.model().splits_in_range() {
            lemma_same_pools_same_splits(
                state.model(),
                state.model().add_pool_covers(caller, val(&pool_id), new_cover.model()).0,
            );
        }
    }
    if !holds(&state.cover_address, &caller) {
        return Err(Error::NotCoverContract);
    }
    match state.pool_covers.get_mut(&pool_id) {
        None => Err(Error::PoolCoversNotFound),
        Some(covers) => {
            let ghost before = covers.model();
            covers.push(new_cover);
            proof {
                assert(covers.model() =~= before.push(new_cover.model()));
            }
            Ok(())
        },
    }
}

/// The covers drawn against a pool.
pub fn get_pool_covers(state: &State, pool_id: &Nat) -> (r: Result<Vec<Cover>, Error>)
    ensures
        r.model() == if state.model().pool_covers.contains_key(val(pool_id)) {
            Ok::<Seq<CoverModel>, Error>(state.model().pool_covers[val(pool_id)])
        } else {
            Err(Error::PoolCoversNotFound)
        },
{
    match state.pool_covers.get(pool_id) {
        Some(covers) => Ok(covers.duplicate()),
        None => Err(Error::PoolCoversNotFound),
    }
}

/// The pools in which `user_address` has a deposit, each once, as that user
/// sees them.
pub fn get_pools_by_address(state: &State, user_address: Principal) -> (r: Vec<PoolInfo>)
    ensures
        lists_values(r.model(), state.model().pools_of(user_address)),
{
    let n: usize = state.pools.len();
    let mut flags: Vec<bool> = Vec::new();
    let mut i: usize = 0;
    while i < n
        invariant
            state.pools.wf(),
            n == state.pools.key_seq().len(),
            i <= n,
            flags@.len() == i,
            forall|j: int|
                0 <= j < i ==> flags@[j] == (#[trigger] state.pools.value_seq()[j]).deposits.contains_key(
                    user_address,
                ),
        decreases n - i,
    {
        flags.push(state.pools.value_at(i).deposits.contains_key(&user_address));
        i += 1;
    }
    let positions = flagged_positions(&flags);
    let mut out: Vec<PoolInfo> = Vec::new();
    let mut j: usize = 0;
    let ghost keys = Seq::new(
        positions@.len(),
        |t: int| state.pools.key_seq()[positions@[t] as int],
    );
    proof {
        state.pools.lemma_picked_lists(positions@, flags@);
        assert forall|t: int| 0 <= t < positions@.len() implies state.model().pools.contains_key(
            #[trigger] keys[t],
        ) && state.model().pools[keys[t]] == state.pools.value_seq()[positions@[t] as int] by {
            state.pools.lemma_entry(positions@[t] as int);
        }
    }
    while j < positions.len()
        invariant
            state.pools.wf(),
            n == state.pools.key_seq().len(),
            flags@.len() == n,
            picks(positions@, flags@),
            keys == Seq::new(positions@.len(), |t: int| state.pools.key_seq()[positions@[t] as int]),
            forall|t: int|
                0 <= t < positions@.len() ==> state.model().pools.contains_key(#[trigger] keys[t])
                    && state.model().pools[keys[t]] == state.pools.value_seq()[positions@[t] as int],
            forall|x: int|
                0 <= x < n ==> flags@[x] == (#[trigger] state.pools.value_seq()[x]).deposits.contains_key(
                    user_address,
                ),
            j <= positions@.len(),
            out@.len() == j,
            forall|t: int|
                0 <= t < j ==> (#[trigger] out@[t]).model() == state.model().pool_info(
                    keys[t],
                    user_address,
                ),
        decreases positions@.len() - j,
    {
        let at: usize = positions[j];
        let pool_id = state.pools.key_at(at);
        let pool = state.pools.value_at(at);
        proof {
            assert(flags@[at as int]);
            assert(state.pools.value_seq()[at as int].deposits.contains_key(user_address));
            assert(keys[j as int] == state.pools.key_seq()[at as int]);
        }
        match pool.deposits.get(&user_address) {
            Some(deposit) => {
                out.push(
                    PoolInfo {
                        pool_name: pool.pool_name.clone(),
                        pool_id: pool_id.clone(),
                        daily_payout: deposit.daily_payout.clone(),
                        deposit_amount: deposit.amount.clone(),
                        apy: pool.apy.clone(),
                        min_period: pool.min_period.clone(),
                        tvl: pool.tvl.clone(),
                        tcp: pool.tcp.clone(),
                        is_active: pool.is_active,
                        accrued_payout: deposit.accrued_payout.clone(),
                    },
                );
            },
            None => {},
        }
        j += 1;
    }
    proof {
        let part = state.pools.flagged(flags@);
        let target = state.model().pools_of(user_address);
        let values = out.model();
        assert(keys.len() == values.len());
        assert forall|t: int| 0 <= t < keys.len() implies target.contains_key(#[trigger] keys[t])
            && target[keys[t]] == values[t] by {
            assert(flags@[positions@[t] as int]);
        }
        assert forall|k: nat| #[trigger] target.contains_key(k) implies exists|t: int|
            0 <= t < keys.len() && keys[t] == k by {
            assert(state.pools.contains(k));
            let x = state.pools.index_of(k);
            state.pools.lemma_entry(x);
            assert(flags@[x]);
            assert(part.contains_key(k));
        }
        assert(lists(keys, values, target));
    }
    out
}

/// The deposit of `user` in a pool.
pub fn get_user_deposit(state: &State, pool_id: &Nat, user: Principal) -> (r: Result<Deposit, Error>)
    ensures
        r.model() == state.model().get_user_deposit(val(pool_id), user),
{
    let pool = match state.pools.get(pool_id) {
        Some(pool) => pool,
        None => { return Err(Error::PoolNotFound); },
    };
    match pool.deposits.get(&user) {
        Some(deposit) => Ok(deposit.clone()),
        None => Err(Error::DepositNotFound),
    }
}

/// A pool's total value locked.
pub fn get_pool_tvl(state: &State, pool_id: &Nat) -> (r: Result<Nat, Error>)
    ensures
        r.model() == if state.model().pools.contains_key(val(pool_id)) {
            Ok::<nat, Error>(state.model().pools[val(pool_id)].tvl)
        } else {
            Err(Error::PoolNotFound)
        },
{
    match state.pools.get(pool_id) {
        Some(pool) => Ok(pool.tvl.clone()),
        None => Err(Error::PoolNotFound),
    }
}

/// Whether a pool is active.
pub fn pool_active(state: &State, pool_id: &Nat) -> (r: Result<bool, Error>)
    ensures
        r == if state.model().pools.contains_key(val(pool_id)) {
            Ok::<bool, Error>(state.model().pools[val(pool_id)].is_active)
        } else {
            Err(Error::PoolNotFound)
        },
{
    match state.pools.get(pool_id) {
        Some(pool) => Ok(pool.is_active),
        None => Err(Error::PoolNotFound),
    }
}

/// Who has deposited, in order of first deposit.
pub fn get_all_participants(state: &State) -> (r: Result<Vec<Principal>, Error>)
    ensures
        r.model() == Ok::<Seq<Principal>, Error>(state.model().participants),
{
    Ok(state.participants.duplicate())
}

/// How many deposits `user` made.
pub fn get_user_participation(state: &State, user: Principal) -> (r: Result<Nat, Error>)
    ensures
        r.model() == if state.model().participation.contains_key(user) {
            Ok::<nat, Error>(state.model().participation[user])
        } else {
            Err(Error::ParticipationNotFound)
        },
{
    match state.participation.get(&user) {
        Some(count) => Ok(count.clone()),
        None => Err(Error::ParticipationNotFound),
    }
}

/// The owner, if one is set.
pub fn get_owner(state: &State) -> (r: Option<Principal>)
    ensures
        r == state.model().owner,
{
    state.owner
}

/// Hands ownership over. Only the owner may.
pub fn set_owner(state: &mut State, caller: Principal, new_owner: Principal) -> (r: Result<
    (),
    Error,
>)
    ensures
        (final(state).model(), r) == old(state).model().set_owner(caller, new_owner),
        old(state).model().splits_in_range() ==> final(state).model().splits_in_range(),
{
    proof {
        if state.model().splits_in_range() {
            lemma_set_owner_keeps_splits(state.model(), caller, new_owner);
        }
    }
    if !holds(&state.owner, &caller) {
        return Err(Error::NotOwner);
    }
    state.owner = Some(new_owner);
    Ok(())
}

/// In a pool manager that has done nothing, every percentage split lies
/// between 0 and 100. The laws below say of each operation that it keeps them
/// there.
pub proof fn lemma_fresh_state_in_range()
    ensures
        StateModel::initial().splits_in_range(),
{
}

/// Setting the owner and the ledger keeps every percentage split between 0 and 100.
pub proof fn lemma_init_keeps_splits(
    s: StateModel,
    owner: Principal,
    bq_btc: Principal,
)
    requires
        s.splits_in_range(),
    ensures
        s.init(owner, bq_btc).splits_in_range(),
{
    let after = s.init(owner, bq_btc);
    assert forall|id: nat| #[trigger] after.pools.contains_key(id) implies after.pools[id].percentage_split_balance
        <= 100 by {
        if s.pools.contains_key(id) {
            assert(s.pools[id].percentage_split_balance <= 100);
        }
    }
}

/// Creating a pool keeps every percentage split between 0 and 100.
pub proof fn lemma_create_pool_keeps_splits(
    s: StateModel,
    caller: Principal,
    risk_type: RiskType,
    pool_name: Seq<char>,
    apy: nat,
    min_period: nat,
)
    requires
        s.splits_in_range(),
    ensures
        s.create_pool(caller, risk_type, pool_name, apy, min_period).0.splits_in_range(),
{
    let after = s.create_pool(caller, risk_type, pool_name, apy, min_period).0;
    assert forall|id: nat| #[trigger] after.pools.contains_key(id) implies after.pools[id].percentage_split_balance
        <= 100 by {
        if s.pools.contains_key(id) {
            assert(s.pools[id].percentage_split_balance <= 100);
        }
    }
}

/// Changing a pool's yield and lock period keeps every percentage split between 0 and 100.
pub proof fn lemma_update_pool_keeps_splits(
    s: StateModel,
    caller: Principal,
    pool_id: nat,
    apy: nat,
    min_period: nat,
)
    requires
        s.splits_in_range(),
    ensures
        s.update_pool(caller, pool_id, apy, min_period).0.splits_in_range(),
{
    let after = s.update_pool(caller, pool_id, apy, min_period).0;
    assert forall|id: nat| #[trigger] after.pools.contains_key(id) implies after.pools[id].percentage_split_balance
        <= 100 by {
        if s.pools.contains_key(id) {
            assert(s.pools[id].percentage_split_balance <= 100);
        }
    }
}

/// Reducing a percentage split keeps every percentage split between 0 and 100.
pub proof fn lemma_reduce_percentage_split_keeps_splits(
    s: StateModel,
    caller: Principal,
    pool_id: nat,
    pct: nat,
)
    requires
        s.splits_in_range(),
    ensures
        s.reduce_percentage_split(caller, pool_id, pct).0.splits_in_range(),
{
    let after = s.reduce_percentage_split(caller, pool_id, pct).0;
    assert forall|id: nat| #[trigger] after.pools.contains_key(id) implies after.pools[id].percentage_split_balance
        <= 100 by {
        if s.pools.contains_key(id) {
            assert(s.pools[id].percentage_split_balance <= 100);
        }
    }
}

/// Increasing a percentage split keeps every percentage split between 0 and 100.
pub proof fn lemma_increase_percentage_split_keeps_splits(
    s: StateModel,
    caller: Principal,
    pool_id: nat,
    pct: nat,
)
    requires
        s.splits_in_range(),
    ensures
        s.increase_percentage_split(caller, pool_id, pct).0.splits_in_range(),
{
    let after = s.increase_percentage_split(caller, pool_id, pct).0;
    assert forall|id: nat| #[trigger] after.pools.contains_key(id) implies after.pools[id].percentage_split_balance
        <= 100 by {
        if s.pools.contains_key(id) {
            assert(s.pools[id].percentage_split_balance <= 100);
        }
    }
}

/// Deactivating a pool keeps every percentage split between 0 and 100.
pub proof fn lemma_deactivate_pool_keeps_splits(
    s: StateModel,
    caller: Principal,
    pool_id: nat,
)
    requires
        s.splits_in_range(),
    ensures
        s.deactivate_pool(caller, pool_id).0.splits_in_range(),
{
    let after = s.deactivate_pool(caller, pool_id).0;
    assert forall|id: nat| #[trigger] after.pools.contains_key(id) implies after.pools[id].percentage_split_balance
        <= 100 by {
        if s.pools.contains_key(id) {
            assert(s.pools[id].percentage_split_balance <= 100);
        }
    }
}

/// Handing ownership over keeps every percentage split between 0 and 100.
pub proof fn lemma_set_owner_keeps_splits(
    s: StateModel,
    caller: Principal,
    new_owner: Principal,
)
    requires
        s.splits_in_range(),
    ensures
        s.set_owner(caller, new_owner).0.splits_in_range(),
{
    let after = s.set_owner(caller, new_owner).0;
    assert forall|id: nat| #[trigger] after.pools.contains_key(id) implies after.pools[id].percentage_split_balance
        <= 100 by {
        if s.pools.contains_key(id) {
            assert(s.pools[id].percentage_split_balance <= 100);
        }
    }
}

/// A deposit keeps every percentage split between 0 and 100.
pub proof fn lemma_deposit_keeps_splits(
    s: StateModel,
    caller: Principal,
    pool_id: nat,
    amount: nat,
    quote: DepositQuoteModel,
    burned: bool,
    now: nat,
)
    requires
        s.splits_in_range(),
    ensures
        s.deposit(caller, pool_id, amount, quote, burned, now).0.splits_in_range(),
{
    let after = s.deposit(caller, pool_id, amount, quote, burned, now).0;
    assert forall|id: nat| #[trigger] after.pools.contains_key(id) implies after.pools[id].percentage_split_balance
        <= 100 by {
        if s.pools.contains_key(id) {
            assert(s.pools[id].percentage_split_balance <= 100);
        }
    }
}

/// A withdrawal keeps every percentage split between 0 and 100.
pub proof fn lemma_withdraw_keeps_splits(
    s: StateModel,
    caller: Principal,
    pool_id: nat,
    amount: nat,
    now: nat,
)
    requires
        s.splits_in_range(),
    ensures
        s.withdraw(caller, pool_id, amount, now).0.splits_in_range(),
{
    let after = s.withdraw(caller, pool_id, amount, now).0;
    assert forall|id: nat| #[trigger] after.pools.contains_key(id) implies after.pools[id].percentage_split_balance
        <= 100 by {
        if s.pools.contains_key(id) {
            assert(s.pools[id].percentage_split_balance <= 100);
        }
    }
}

/// A claim settlement keeps every percentage split between 0 and 100.
pub proof fn lemma_claim_proposal_funds_keeps_splits(
    s: StateModel,
    caller: Principal,
    proposal: Option<ProposalModel>,
)
    requires
        s.splits_in_range(),
    ensures
        s.claim_proposal_funds(caller, proposal).0.splits_in_range(),
{
    let after = s.claim_proposal_funds(caller, proposal).0;
    assert forall|id: nat| #[trigger] after.pools.contains_key(id) implies after.pools[id].percentage_split_balance
        <= 100 by {
        if s.pools.contains_key(id) {
            assert(s.pools[id].percentage_split_balance <= 100);
        }
    }
}

/// What does not touch the pools leaves their percentage splits as they
/// were.
pub proof fn lemma_same_pools_same_splits(before: StateModel, after: StateModel)
    requires
        before.splits_in_range(),
        after.pools == before.pools,
    ensures
        after.splits_in_range(),
{
}

/// A claim that is not refused moves its amount from the pool's value locked
/// to its claims paid, touches no other pool, and yields a plan. Nothing that
/// follows takes the debit back.
pub proof fn lemma_claim_debit_stands(s: StateModel, caller: Principal, proposal: ProposalModel)
    requires
        s.claim_refusal(caller, Some(proposal)) is None,
    ensures
        ({
            let pool_id = proposal.proposal_param.pool_id;
            let amount = proposal.proposal_param.claim_amount;
            let after = s.claim_proposal_funds(caller, Some(proposal)).0;
            &&& after.pools.contains_key(pool_id)
            &&& after.pools[pool_id].tvl + amount == s.pools[pool_id].tvl
            &&& after.pools[pool_id].tcp == s.pools[pool_id].tcp + amount
            &&& after.pools[pool_id].tvl + after.pools[pool_id].tcp == s.pools[pool_id].tvl
                + s.pools[pool_id].tcp
            &&& forall|other: nat|
                other != pool_id && s.pools.contains_key(other) ==> #[trigger] after.pools[other]
                    == s.pools[other]
            &&& s.claim_proposal_funds(caller, Some(proposal)).1 is Ok
        }),
{
}

/// A claim that is refused before the debit changes nothing.
pub proof fn lemma_refused_claim_changes_nothing(
    s: StateModel,
    caller: Principal,
    proposal: Option<ProposalModel>,
)
    requires
        s.claim_refusal(caller, proposal) is Some,
    ensures
        s.claim_proposal_funds(caller, proposal) == (
            s,
            Err::<ClaimPlanModel, Error>(s.claim_refusal(caller, proposal)->0),
        ),
{
}

/// A deposit whose tokens were not burned changes nothing.
pub proof fn lemma_deposit_needs_burn(
    s: StateModel,
    caller: Principal,
    pool_id: nat,
    amount: nat,
    quote: DepositQuoteModel,
    now: nat,
)
    ensures
        s.deposit(caller, pool_id, amount, quote, false, now) == (
            s,
            Err::<(), Error>(Error::BurnFailed),
        ),
{
}

/// A withdrawal that is not refused takes its amount from the deposit and
/// from the pool alike, and leaves neither below zero.
pub proof fn lemma_withdraw_moves_value(s: StateModel, caller: Principal, pool_id: nat, amount: nat, now: nat)
    requires
        s.withdraw_refusal(caller, pool_id, amount, now) is None,
    ensures
        ({
            let after = s.withdraw(caller, pool_id, amount, now).0;
            &&& 0 < amount <= s.pools[pool_id].deposits[caller].amount
            &&& amount <= s.pools[pool_id].tvl
            &&& after.pools[pool_id].tvl + amount == s.pools[pool_id].tvl
            &&& after.pools[pool_id].deposits[caller].amount + amount
                == s.pools[pool_id].deposits[caller].amount
            &&& after.pools[pool_id].tcp == s.pools[pool_id].tcp
        }),
{
}

/// No claim is paid twice: once governance has marked a proposal as claimed,
/// or where it is anything but approved and untallied, a claim on it is
/// refused and the pool keeps what it has.
pub proof fn lemma_only_approved_claims_are_paid(
    s: StateModel,
    caller: Principal,
    proposal: ProposalModel,
)
    requires
        proposal.status != ProposalStatus::Approved || proposal.executed,
    ensures
        s.claim_proposal_funds(caller, Some(proposal)) == (
            s,
            Err::<ClaimPlanModel, Error>(Error::ProposalNotApproved),
        ),
{
}

/// Ending a withdrawal keeps every percentage split between 0 and 100.
pub proof fn lemma_settle_withdraw_keeps_splits(
    s: StateModel,
    caller: Principal,
    pool_id: nat,
    amount: nat,
    minted: bool,
)
    requires
        s.splits_in_range(),
    ensures
        s.settle_withdraw(caller, pool_id, amount, minted).0.splits_in_range(),
{
    let after = s.settle_withdraw(caller, pool_id, amount, minted).0;
    assert forall|id: nat| #[trigger] after.pools.contains_key(id) implies after.pools[id].percentage_split_balance
        <= 100 by {
        if s.pools.contains_key(id) {
            assert(s.pools[id].percentage_split_balance <= 100);
        }
    }
}

/// A withdrawal whose mint fails changes nothing in the end: once it is
/// settled, the whole state, and so the pool's value locked and the caller's
/// deposit, is what it was before the withdrawal, and the failure is
/// reported.
pub proof fn lemma_failed_withdrawal_is_undone(
    s: StateModel,
    caller: Principal,
    pool_id: nat,
    amount: nat,
    now: nat,
)
    requires
        s.withdraw(caller, pool_id, amount, now).1 is Ok,
    ensures
        s.withdraw(caller, pool_id, amount, now).0.settle_withdraw(caller, pool_id, amount, false)
            == (s, Err::<(), Error>(Error::MintFailed)),
{
    let pool = s.pools[pool_id];
    let deposit = pool.deposits[caller];
    let taken = s.withdraw(caller, pool_id, amount, now).0;
    let back = taken.settle_withdraw(caller, pool_id, amount, false).0;
    assert(back.pools[pool_id].deposits =~= pool.deposits);
    assert(back.pools[pool_id] == pool);
    assert(back.pools =~= s.pools);
}

/// A withdrawal whose mint succeeds stays as [`withdraw`] left it.
pub proof fn lemma_settled_withdrawal_stands(
    s: StateModel,
    caller: Principal,
    pool_id: nat,
    amount: nat,
)
    ensures
        s.settle_withdraw(caller, pool_id, amount, true) == (s, Ok::<(), Error>(())),
{
}

/// A withdrawal that meets every condition is carried out. With the ledger
/// set, the pool active, the lock over, the deposit not withdrawn, and an
/// amount above zero that neither the deposit nor the pool falls short of:
/// the pool's value locked and the deposit go down by the amount, the
/// percentage split and the claims paid stay, and one mint of the amount to
/// the caller is ordered.
pub proof fn lemma_valid_withdrawal(s: StateModel, caller: Principal, pool_id: nat, amount: nat, now: nat)
    requires
        s.bq_btc_address is Some,
        s.pools.contains_key(pool_id),
        s.pools[pool_id].is_active,
        s.pools[pool_id].deposits.contains_key(caller),
        s.pools[pool_id].deposits[caller].status != Status::Withdrawn,
        now >= s.pools[pool_id].deposits[caller].expiry_date,
        0 < amount <= s.pools[pool_id].deposits[caller].amount,
        amount <= s.pools[pool_id].tvl,
    ensures
        ({
            let before = s.pools[pool_id];
            let after = s.withdraw(caller, pool_id, amount, now).0.pools[pool_id];
            &&& s.withdraw(caller, pool_id, amount, now).1 == Ok::<MintOrderModel, Error>(
                MintOrderModel { ledger: s.bq_btc_address->0, to: caller, amount },
            )
            &&& after.tvl == before.tvl - amount
            &&& after.deposits[caller].amount == before.deposits[caller].amount - amount
            &&& after.percentage_split_balance == before.percentage_split_balance
            &&& after.tcp == before.tcp
            &&& after.is_active == before.is_active
        }),
{
}

/// A pool has a list of covers from the moment it is created, so that a
/// cover can be added to it and a claim on it can be settled.
pub proof fn lemma_new_pool_has_cover_list(
    s: StateModel,
    caller: Principal,
    risk_type: RiskType,
    pool_name: Seq<char>,
    apy: nat,
    min_period: nat,
    cover: CoverModel,
)
    requires
        s.create_pool(caller, risk_type, pool_name, apy, min_period).1 is Ok,
        s.cover_address is Some,
    ensures
        ({
            let id = s.pool_count + 1;
            let after = s.create_pool(caller, risk_type, pool_name, apy, min_period).0;
            &&& after.pools.contains_key(id)
            &&& after.pool_covers.contains_key(id)
            &&& after.pool_covers[id] == Seq::<CoverModel>::empty()
            &&& after.add_pool_covers(s.cover_address->0, id, cover).1 is Ok
        }),
{
}

/// What becomes of a withdrawal that meets every condition of its own, in
/// whatever state: with the pool active, the lock over, the deposit not
/// withdrawn, and an amount above zero that neither the deposit nor the pool
/// falls short of. Where a ledger is set, the withdrawal is carried out as
/// [`lemma_valid_withdrawal`] says. Where none is set, there is nobody to mint,
/// and the withdrawal is refused and changes nothing. Either way the pool's
/// value locked stays at or above zero, and the percentage split and the
/// claims paid stay as they were.
pub proof fn lemma_withdrawal_outcome(s: StateModel, caller: Principal, pool_id: nat, amount: nat, now: nat)
    requires
        s.pools.contains_key(pool_id),
        s.pools[pool_id].is_active,
        s.pools[pool_id].deposits.contains_key(caller),
        s.pools[pool_id].deposits[caller].status != Status::Withdrawn,
        now >= s.pools[pool_id].deposits[caller].expiry_date,
        0 < amount <= s.pools[pool_id].deposits[caller].amount,
        amount <= s.pools[pool_id].tvl,
    ensures
        ({
            let before = s.pools[pool_id];
            let outcome = s.withdraw(caller, pool_id, amount, now);
            let after = outcome.0.pools[pool_id];
            &&& s.bq_btc_address is Some ==> {
                &&& outcome.1 == Ok::<MintOrderModel, Error>(
                    MintOrderModel { ledger: s.bq_btc_address->0, to: caller, amount },
                )
                &&& after.tvl == before.tvl - amount
                &&& after.deposits[caller].amount == before.deposits[caller].amount - amount
            }
            &&& s.bq_btc_address is None ==> outcome == (
                s,
                Err::<MintOrderModel, Error>(Error::LedgerNotSet),
            )
            &&& outcome.0.pools.contains_key(pool_id)
            &&& after.tvl >= 0
            &&& after.tvl <= before.tvl
            &&& after.percentage_split_balance == before.percentage_split_balance
            &&& after.tcp == before.tcp
        }),
{
}

/// A withdrawal that does not end in a mint leaves everything as it was,
/// whatever was asked for: either it is refused, and changes nothing, or it
/// is accepted, the mint fails, and settling it puts the amount back.
pub proof fn lemma_withdrawal_without_mint_changes_nothing(
    s: StateModel,
    caller: Principal,
    pool_id: nat,
    amount: nat,
    now: nat,
)
    ensures
        s.withdraw(caller, pool_id, amount, now).1 is Err ==> s.withdraw(
            caller,
            pool_id,
            amount,
            now,
        ).0 == s,
        s.withdraw(caller, pool_id, amount, now).1 is Ok ==> s.withdraw(
            caller,
            pool_id,
            amount,
            now,
        ).0.settle_withdraw(caller, pool_id, amount, false) == (
            s,
            Err::<(), Error>(Error::MintFailed),
        ),
{
    if s.withdraw(caller, pool_id, amount, now).1 is Ok {
        lemma_failed_withdrawal_is_undone(s, caller, pool_id, amount, now);
    }
}

} // verus!
