//! The records of the protocol, and what each stands for.

use candid::{Nat, Principal};
use vstd::prelude::*;

use crate::assoc::AssocMap;
use crate::model::Model;

verus! {

/// The class of risk that a pool backs and a cover insures.
#[derive(Clone, Copy, Debug, PartialEq, Eq, Structural)]
pub enum RiskType {
    Slashing,
    SmartContract,
    Stablecoin,
    Protocol,
}

/// The life of a deposit.
#[derive(Clone, Copy, Debug, PartialEq, Eq, Structural)]
pub enum Status {
    Active,
    Withdrawn,
}

/// The life of a proposal: submitted, pending, then approved or rejected, and
/// at last claimed.
#[derive(Clone, Copy, Debug, PartialEq, Eq, Structural)]
pub enum ProposalStatus {
    Submitted,
    Pending,
    Approved,
    Rejected,
    Claimed,
}

impl Model for RiskType {
    type M = RiskType;

    open spec fn model(&self) -> RiskType {
        *self
    }

    fn duplicate(&self) -> (r: Self) {
        *self
    }
}

impl Model for Status {
    type M = Status;

    open spec fn model(&self) -> Status {
        *self
    }

    fn duplicate(&self) -> (r: Self) {
        *self
    }
}

impl Model for ProposalStatus {
    type M = ProposalStatus;

    open spec fn model(&self) -> ProposalStatus {
        *self
    }

    fn duplicate(&self) -> (r: Self) {
        *self
    }
}

/// A liquidity provider's stake in one pool.
#[derive(Debug)]
pub struct Deposit {
    /// Who made the deposit.
    pub lp: Principal,
    /// What is still deposited.
    pub amount: Nat,
    /// The pool it was made into.
    pub pool_id: Nat,
    /// The yield of one day: amount times APY, over 100, over 365, rounded down.
    pub daily_payout: Nat,
    /// Where the deposit stands in its life.
    pub status: Status,
    /// The lock period in days, as the pool had it at deposit time.
    pub days_left: Nat,
    /// When the lock began, in seconds.
    pub start_date: Nat,
    /// When the lock ends, in seconds.
    pub expiry_date: Nat,
    /// Payout accrued so far.
    pub accrued_payout: Nat,
}

/// What a [`Deposit`] stands for.
pub struct DepositModel {
    pub lp: Principal,
    pub amount: nat,
    pub pool_id: nat,
    pub daily_payout: nat,
    pub status: Status,
    pub days_left: nat,
    pub start_date: nat,
    pub expiry_date: nat,
    pub accrued_payout: nat,
}

impl Model for Deposit {
    type M = DepositModel;

    open spec fn model(&self) -> DepositModel {
        DepositModel {
            lp: self.lp.model(),
            amount: self.amount.model(),
            pool_id: self.pool_id.model(),
            daily_payout: self.daily_payout.model(),
            status: self.status.model(),
            days_left: self.days_left.model(),
            start_date: self.start_date.model(),
            expiry_date: self.expiry_date.model(),
            accrued_payout: self.accrued_payout.model(),
        }
    }

    fn duplicate(&self) -> (r: Self) {
        Deposit {
            lp: self.lp,
            amount: self.amount.duplicate(),
            pool_id: self.pool_id.duplicate(),
            daily_payout: self.daily_payout.duplicate(),
            status: self.status,
            days_left: self.days_left.duplicate(),
            start_date: self.start_date.duplicate(),
            expiry_date: self.expiry_date.duplicate(),
            accrued_payout: self.accrued_payout.duplicate(),
        }
    }
}

impl Clone for Deposit {
    fn clone(&self) -> (r: Self)
        ensures
            r.model() == self.model(),
    {
        self.duplicate()
    }
}

/// A reserve of capital that backs covers.
#[derive(Debug)]
pub struct Pool {
    /// The pool's name.
    pub pool_name: String,
    /// The class of risk the pool backs.
    pub risk_type: RiskType,
    /// The yearly yield, in percent.
    pub apy: Nat,
    /// The shortest lock period, in days.
    pub min_period: Nat,
    /// Total value locked: deposits less withdrawals less claims paid.
    pub tvl: Nat,
    /// Total claims paid; never decreases.
    pub tcp: Nat,
    /// Whether the pool takes deposits and pays claims.
    pub is_active: bool,
    /// The share of the pool, in percent, not yet allotted to a cover.
    pub percentage_split_balance: Nat,
    /// The deposit of each provider.
    pub deposits: AssocMap<Principal, Deposit>,
}

/// What a [`Pool`] stands for.
pub struct PoolModel {
    pub pool_name: Seq<char>,
    pub risk_type: RiskType,
    pub apy: nat,
    pub min_period: nat,
    pub tvl: nat,
    pub tcp: nat,
    pub is_active: bool,
    pub percentage_split_balance: nat,
    pub deposits: Map<Principal, DepositModel>,
}

impl Model for Pool {
    type M = PoolModel;

    open spec fn model(&self) -> PoolModel {
        PoolModel {
            pool_name: self.pool_name.model(),
            risk_type: self.risk_type.model(),
            apy: self.apy.model(),
            min_period: self.min_period.model(),
            tvl: self.tvl.model(),
            tcp: self.tcp.model(),
            is_active: self.is_active.model(),
            percentage_split_balance: self.percentage_split_balance.model(),
            deposits: self.deposits.model(),
        }
    }

    fn duplicate(&self) -> (r: Self) {
        Pool {
            pool_name: self.pool_name.duplicate(),
            risk_type: self.risk_type,
            apy: self.apy.duplicate(),
            min_period: self.min_period.duplicate(),
            tvl: self.tvl.duplicate(),
            tcp: self.tcp.duplicate(),
            is_active: self.is_active,
            percentage_split_balance: self.percentage_split_balance.duplicate(),
            deposits: self.deposits.duplicate(),
        }
    }
}

impl Clone for Pool {
    fn clone(&self) -> (r: Self)
        ensures
            r.model() == self.model(),
    {
        self.duplicate()
    }
}

/// A pool as one of its depositors sees it.
#[derive(Debug)]
pub struct PoolInfo {
    /// The pool's name.
    pub pool_name: String,
    /// The pool's id.
    pub pool_id: Nat,
    /// The depositor's daily payout.
    pub daily_payout: Nat,
    /// The depositor's stake.
    pub deposit_amount: Nat,
    /// The pool's yearly yield, in percent.
    pub apy: Nat,
    /// The pool's shortest lock period, in days.
    pub min_period: Nat,
    /// The pool's total value locked.
    pub tvl: Nat,
    /// The pool's total claims paid.
    pub tcp: Nat,
    /// Whether the pool is active.
    pub is_active: bool,
    /// The depositor's accrued payout.
    pub accrued_payout: Nat,
}

/// What a [`PoolInfo`] stands for.
pub struct PoolInfoModel {
    pub pool_name: Seq<char>,
    pub pool_id: nat,
    pub daily_payout: nat,
    pub deposit_amount: nat,
    pub apy: nat,
    pub min_period: nat,
    pub tvl: nat,
    pub tcp: nat,
    pub is_active: bool,
    pub accrued_payout: nat,
}

impl Model for PoolInfo {
    type M = PoolInfoModel;

    open spec fn model(&self) -> PoolInfoModel {
        PoolInfoModel {
            pool_name: self.pool_name.model(),
            pool_id: self.pool_id.model(),
            daily_payout: self.daily_payout.model(),
            deposit_amount: self.deposit_amount.model(),
            apy: self.apy.model(),
            min_period: self.min_period.model(),
            tvl: self.tvl.model(),
            tcp: self.tcp.model(),
            is_active: self.is_active.model(),
            accrued_payout: self.accrued_payout.model(),
        }
    }

    fn duplicate(&self) -> (r: Self) {
        PoolInfo {
            pool_name: self.pool_name.duplicate(),
            pool_id: self.pool_id.duplicate(),
            daily_payout: self.daily_payout.duplicate(),
            deposit_amount: self.deposit_amount.duplicate(),
            apy: self.apy.duplicate(),
            min_period: self.min_period.duplicate(),
            tvl: self.tvl.duplicate(),
            tcp: self.tcp.duplicate(),
            is_active: self.is_active,
            accrued_payout: self.accrued_payout.duplicate(),
        }
    }
}

impl Clone for PoolInfo {
    fn clone(&self) -> (r: Self)
        ensures
            r.model() == self.model(),
    {
        self.duplicate()
    }
}

/// An insurance product sized as a share of a pool.
#[derive(Debug)]
pub struct Cover {
    /// The cover's id.
    pub id: Nat,
    /// The cover's name.
    pub cover_name: String,
    /// The class of risk covered; that of the pool.
    pub risk_type: RiskType,
    /// The chains or scope covered.
    pub chains: String,
    /// The share of the pool's value asked for, in percent.
    pub capacity: Nat,
    /// The premium rate.
    pub cost: Nat,
    /// The capacity as an amount: the share of the pool's value when last computed.
    pub capacity_amount: Nat,
    /// The value bought so far.
    pub cover_values: Nat,
    /// The value that can still be bought.
    pub max_amount: Nat,
    /// The pool that backs the cover.
    pub pool_id: Nat,
    /// A reference to the cover's document.
    pub cid: String,
}

/// What a [`Cover`] stands for.
pub struct CoverModel {
    pub id: nat,
    pub cover_name: Seq<char>,
    pub risk_type: RiskType,
    pub chains: Seq<char>,
    pub capacity: nat,
    pub cost: nat,
    pub capacity_amount: nat,
    pub cover_values: nat,
    pub max_amount: nat,
    pub pool_id: nat,
    pub cid: Seq<char>,
}

impl Model for Cover {
    type M = CoverModel;

    open spec fn model(&self) -> CoverModel {
        CoverModel {
            id: self.id.model(),
            cover_name: self.cover_name.model(),
            risk_type: self.risk_type.model(),
            chains: self.chains.model(),
            capacity: self.capacity.model(),
            cost: self.cost.model(),
            capacity_amount: self.capacity_amount.model(),
            cover_values: self.cover_values.model(),
            max_amount: self.max_amount.model(),
            pool_id: self.pool_id.model(),
            cid: self.cid.model(),
        }
    }

    fn duplicate(&self) -> (r: Self) {
        Cover {
            id: self.id.duplicate(),
            cover_name: self.cover_name.duplicate(),
            risk_type: self.risk_type,
            chains: self.chains.duplicate(),
            capacity: self.capacity.duplicate(),
            cost: self.cost.duplicate(),
            capacity_amount: self.capacity_amount.duplicate(),
            cover_values: self.cover_values.duplicate(),
            max_amount: self.max_amount.duplicate(),
            pool_id: self.pool_id.duplicate(),
            cid: self.cid.duplicate(),
        }
    }
}

impl Clone for Cover {
    fn clone(&self) -> (r: Self)
        ensures
            r.model() == self.model(),
    {
        self.duplicate()
    }
}

/// What one user has bought of one cover.
#[derive(Debug)]
pub struct GenericCoverInfo {
    /// The buyer.
    pub user: Principal,
    /// The cover bought.
    pub cover_id: Nat,
    /// The cover's class of risk.
    pub risk_type: RiskType,
    /// The cover's name.
    pub cover_name: String,
    /// The value bought, less claims paid.
    pub cover_value: Nat,
    /// The claims paid so far.
    pub claim_paid: Nat,
    /// The period bought, in days.
    pub cover_period: Nat,
    /// When the cover ends, in seconds.
    pub end_day: Nat,
    /// Whether the cover is in force.
    pub is_active: bool,
}

/// What a [`GenericCoverInfo`] stands for.
pub struct GenericCoverInfoModel {
    pub user: Principal,
    pub cover_id: nat,
    pub risk_type: RiskType,
    pub cover_name: Seq<char>,
    pub cover_value: nat,
    pub claim_paid: nat,
    pub cover_period: nat,
    pub end_day: nat,
    pub is_active: bool,
}

impl Model for GenericCoverInfo {
    type M = GenericCoverInfoModel;

    open spec fn model(&self) -> GenericCoverInfoModel {
        GenericCoverInfoModel {
            user: self.user.model(),
            cover_id: self.cover_id.model(),
            risk_type: self.risk_type.model(),
            cover_name: self.cover_name.model(),
            cover_value: self.cover_value.model(),
            claim_paid: self.claim_paid.model(),
            cover_period: self.cover_period.model(),
            end_day: self.end_day.model(),
            is_active: self.is_active.model(),
        }
    }

    fn duplicate(&self) -> (r: Self) {
        GenericCoverInfo {
            user: self.user,
            cover_id: self.cover_id.duplicate(),
            risk_type: self.risk_type,
            cover_name: self.cover_name.duplicate(),
            cover_value: self.cover_value.duplicate(),
            claim_paid: self.claim_paid.duplicate(),
            cover_period: self.cover_period.duplicate(),
            end_day: self.end_day.duplicate(),
            is_active: self.is_active,
        }
    }
}

impl Clone for GenericCoverInfo {
    fn clone(&self) -> (r: Self)
        ensures
            r.model() == self.model(),
    {
        self.duplicate()
    }
}

/// What a claim asks for.
#[derive(Debug)]
pub struct ProposalParam {
    /// The claimant.
    pub user: Principal,
    /// The cover claimed against.
    pub cover_id: Nat,
    /// The pool that is to pay.
    pub pool_id: Nat,
    /// The amount claimed.
    pub claim_amount: Nat,
}

/// What a [`ProposalParam`] stands for.
pub struct ProposalParamModel {
    pub user: Principal,
    pub cover_id: nat,
    pub pool_id: nat,
    pub claim_amount: nat,
}

impl Model for ProposalParam {
    type M = ProposalParamModel;

    open spec fn model(&self) -> ProposalParamModel {
        ProposalParamModel {
            user: self.user.model(),
            cover_id: self.cover_id.model(),
            pool_id: self.pool_id.model(),
            claim_amount: self.claim_amount.model(),
        }
    }

    fn duplicate(&self) -> (r: Self) {
        ProposalParam {
            user: self.user,
            cover_id: self.cover_id.duplicate(),
            pool_id: self.pool_id.duplicate(),
            claim_amount: self.claim_amount.duplicate(),
        }
    }
}

impl Clone for ProposalParam {
    fn clone(&self) -> (r: Self)
        ensures
            r.model() == self.model(),
    {
        self.duplicate()
    }
}

/// A claim put to the vote.
#[derive(Debug)]
pub struct Proposal {
    /// The proposal's id.
    pub id: Nat,
    /// The weight of the votes in favour.
    pub votes_for: Nat,
    /// The weight of the votes against.
    pub votes_against: Nat,
    /// When the proposal was made, in seconds.
    pub created_at: Nat,
    /// When voting ends, in seconds.
    pub deadline: Nat,
    /// The time left to vote.
    pub timeleft: Nat,
    /// Whether the votes have been tallied.
    pub executed: bool,
    /// Where the proposal stands.
    pub status: ProposalStatus,
    /// What the claim asks for.
    pub proposal_param: ProposalParam,
    /// Who voted in favour, in voting order.
    pub voters_for: Vec<Principal>,
    /// Who voted against, in voting order.
    pub voters_against: Vec<Principal>,
}

/// What a [`Proposal`] stands for.
pub struct ProposalModel {
    pub id: nat,
    pub votes_for: nat,
    pub votes_against: nat,
    pub created_at: nat,
    pub deadline: nat,
    pub timeleft: nat,
    pub executed: bool,
    pub status: ProposalStatus,
    pub proposal_param: ProposalParamModel,
    pub voters_for: Seq<Principal>,
    pub voters_against: Seq<Principal>,
}

impl Model for Proposal {
    type M = ProposalModel;

    open spec fn model(&self) -> ProposalModel {
        ProposalModel {
            id: self.id.model(),
            votes_for: self.votes_for.model(),
            votes_against: self.votes_against.model(),
            created_at: self.created_at.model(),
            deadline: self.deadline.model(),
            timeleft: self.timeleft.model(),
            executed: self.executed.model(),
            status: self.status.model(),
            proposal_param: self.proposal_param.model(),
            voters_for: self.voters_for.model(),
            voters_against: self.voters_against.model(),
        }
    }

    fn duplicate(&self) -> (r: Self) {
        Proposal {
            id: self.id.duplicate(),
            votes_for: self.votes_for.duplicate(),
            votes_against: self.votes_against.duplicate(),
            created_at: self.created_at.duplicate(),
            deadline: self.deadline.duplicate(),
            timeleft: self.timeleft.duplicate(),
            executed: self.executed,
            status: self.status,
            proposal_param: self.proposal_param.duplicate(),
            voters_for: self.voters_for.duplicate(),
            voters_against: self.voters_against.duplicate(),
        }
    }
}

impl Clone for Proposal {
    fn clone(&self) -> (r: Self)
        ensures
            r.model() == self.model(),
    {
        self.duplicate()
    }
}

/// One identity's vote on one proposal.
#[derive(Debug)]
pub struct Voter {
    /// Whether the vote was cast.
    pub voted: bool,
    /// Whether it was in favour.
    pub vote: bool,
    /// The voter's ledger balance when voting.
    pub weight: Nat,
}

/// What a [`Voter`] stands for.
pub struct VoterModel {
    pub voted: bool,
    pub vote: bool,
    pub weight: nat,
}

impl Model for Voter {
    type M = VoterModel;

    open spec fn model(&self) -> VoterModel {
        VoterModel {
            voted: self.voted.model(),
            vote: self.vote.model(),
            weight: self.weight.model(),
        }
    }

    fn duplicate(&self) -> (r: Self) {
        Voter {
            voted: self.voted,
            vote: self.vote,
            weight: self.weight.duplicate(),
        }
    }
}

impl Clone for Voter {
    fn clone(&self) -> (r: Self)
        ensures
            r.model() == self.model(),
    {
        self.duplicate()
    }
}

} // verus!
