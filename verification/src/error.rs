//! Why an operation was refused.

use vstd::prelude::*;

verus! {

/// The broad classes of failure.
#[derive(Clone, Copy, Debug, PartialEq, Eq, Structural)]
pub enum ErrorKind {
    /// The caller lacks the privilege the operation asks for.
    Unauthorized,
    /// A pool, cover, proposal, deposit or other record is absent.
    NotFound,
    /// An amount exceeds the funds available.
    InsufficientBalance,
    /// An amount exceeds the capacity available.
    InsufficientCapacity,
    /// The operation does not fit the present state of what it acts on.
    InvalidState,
    /// A call to another actor failed or could not be made.
    DependencyFailure,
}

/// Every way in which an operation of the protocol can fail.
#[derive(Clone, Copy, Debug, PartialEq, Eq, Structural)]
pub enum Error {
    /// The caller is not the owner.
    NotOwner,
    /// The caller is not the registered cover actor.
    NotCoverContract,
    /// The caller is not a governance admin.
    NotAdmin,
    /// The caller is not the claimant named in the proposal.
    NotClaimant,
    /// No pool has the given id.
    PoolNotFound,
    /// No list of covers is kept for the given pool.
    PoolCoversNotFound,
    /// No cover has the given id.
    CoverNotFound,
    /// The pool's list holds no cover with the given id.
    CoverNotInPool,
    /// No proposal has the given id.
    ProposalNotFound,
    /// The caller has no deposit in the pool.
    DepositNotFound,
    /// The user has bought no cover at all.
    UserCoversNotFound,
    /// The user has not bought the given cover.
    UserCoverNotFound,
    /// The user has never taken part.
    ParticipationNotFound,
    /// The user has not claimed a payout from the given pool yet.
    ClaimTimeNotFound,
    /// The ledger's address has not been set.
    LedgerNotSet,
    /// The governance actor's address has not been set.
    GovernanceNotSet,
    /// The cover actor's address has not been set.
    CoverContractNotSet,
    /// The pool actor's address has not been set.
    PoolContractNotSet,
    /// The value asked for exceeds what the cover can still take.
    InsufficientCapacity,
    /// A cover's new capacity would lie below what was already bought.
    CapacityBelowPurchased,
    /// The percentage split would leave the range from 0 to 100.
    SplitOutOfRange,
    /// The pool holds less than the amount asked for.
    InsufficientPoolFunds,
    /// The amount exceeds the caller's deposit.
    ExceedsDeposit,
    /// The claim exceeds the value of the cover it is made against.
    ClaimExceedsCover,
    /// The pool has been deactivated.
    PoolInactive,
    /// The deposit's lock period has not ended.
    DepositLocked,
    /// The deposit has been withdrawn already.
    AlreadyWithdrawn,
    /// The deposit holds nothing.
    EmptyDeposit,
    /// The amount is zero.
    ZeroAmount,
    /// The deposit is not active.
    DepositNotActive,
    /// Less than a day of payout has accrued.
    NoClaimableReward,
    /// The caller has voted on the proposal already.
    AlreadyVoted,
    /// The proposal's voting period is over.
    VotingClosed,
    /// The proposal is not approved, or has been executed.
    ProposalNotApproved,
    /// The pool has a cover of that id or name already.
    CoverExists,
    /// The risk type is not the pool's.
    RiskTypeMismatch,
    /// The cover's capacity is zero.
    InvalidCapacity,
    /// The pool or cover address of the ledger has been set already.
    AddressesAlreadySet,
    /// The ledger did not burn the tokens.
    BurnFailed,
    /// The ledger did not mint the tokens.
    MintFailed,
    /// The pool actor did not return the pool.
    PoolQueryFailed,
    /// The pool actor did not return the pool's covers.
    PoolCoversQueryFailed,
    /// The cover actor did not return the user's cover.
    UserCoverQueryFailed,
    /// The pool actor did not return the user's deposit.
    DepositQueryFailed,
    /// The governance actor did not return the proposal.
    ProposalQueryFailed,
    /// The ledger did not return the caller's balance.
    WeightQueryFailed,
    /// The cover actor did not recompute a cover's capacity.
    CoverUpdateFailed,
    /// The governance actor did not mark the proposal as claimed.
    StatusUpdateFailed,
}

impl Error {
    /// The class an error belongs to.
    pub open spec fn kind_of(self) -> ErrorKind {
        match self {
            Error::NotOwner | Error::NotCoverContract | Error::NotAdmin | Error::NotClaimant =>
                ErrorKind::Unauthorized,
            Error::PoolNotFound
            | Error::PoolCoversNotFound
            | Error::CoverNotFound
            | Error::CoverNotInPool
            | Error::ProposalNotFound
            | Error::DepositNotFound
            | Error::UserCoversNotFound
            | Error::UserCoverNotFound
            | Error::ParticipationNotFound
            | Error::ClaimTimeNotFound => ErrorKind::NotFound,
            Error::InsufficientCapacity | Error::CapacityBelowPurchased | Error::SplitOutOfRange =>
                ErrorKind::InsufficientCapacity,
            Error::InsufficientPoolFunds | Error::ExceedsDeposit | Error::ClaimExceedsCover =>
                ErrorKind::InsufficientBalance,
            Error::LedgerNotSet
            | Error::GovernanceNotSet
            | Error::CoverContractNotSet
            | Error::PoolContractNotSet
            | Error::PoolInactive
            | Error::DepositLocked
            | Error::AlreadyWithdrawn
            | Error::EmptyDeposit
            | Error::ZeroAmount
            | Error::DepositNotActive
            | Error::NoClaimableReward
            | Error::AlreadyVoted
            | Error::VotingClosed
            | Error::ProposalNotApproved
            | Error::CoverExists
            | Error::RiskTypeMismatch
            | Error::InvalidCapacity
            | Error::AddressesAlreadySet => ErrorKind::InvalidState,
            Error::BurnFailed
            | Error::MintFailed
            | Error::PoolQueryFailed
            | Error::PoolCoversQueryFailed
            | Error::UserCoverQueryFailed
            | Error::DepositQueryFailed
            | Error::ProposalQueryFailed
            | Error::WeightQueryFailed
            | Error::CoverUpdateFailed
            | Error::StatusUpdateFailed => ErrorKind::DependencyFailure,
        }
    }

    /// The class an error belongs to.
    pub fn kind(&self) -> (r: ErrorKind)
        ensures
            r == self.kind_of(),
    {
        match self {
            Error::NotOwner | Error::NotCoverContract | Error::NotAdmin | Error::NotClaimant =>
                ErrorKind::Unauthorized,
            Error::PoolNotFound
            | Error::PoolCoversNotFound
            | Error::CoverNotFound
            | Error::CoverNotInPool
            | Error::ProposalNotFound
            | Error::DepositNotFound
            | Error::UserCoversNotFound
            | Error::UserCoverNotFound
            | Error::ParticipationNotFound
            | Error::ClaimTimeNotFound => ErrorKind::NotFound,
            Error::InsufficientCapacity | Error::CapacityBelowPurchased | Error::SplitOutOfRange =>
                ErrorKind::InsufficientCapacity,
            Error::InsufficientPoolFunds | Error::ExceedsDeposit | Error::ClaimExceedsCover =>
                ErrorKind::InsufficientBalance,
            Error::LedgerNotSet
            | Error::GovernanceNotSet
            | Error::CoverContractNotSet
            | Error::PoolContractNotSet
            | Error::PoolInactive
            | Error::DepositLocked
            | Error::AlreadyWithdrawn
            | Error::EmptyDeposit
            | Error::ZeroAmount
            | Error::DepositNotActive
            | Error::NoClaimableReward
            | Error::AlreadyVoted
            | Error::VotingClosed
            | Error::ProposalNotApproved
            | Error::CoverExists
            | Error::RiskTypeMismatch
            | Error::InvalidCapacity
            | Error::AddressesAlreadySet => ErrorKind::InvalidState,
            Error::BurnFailed
            | Error::MintFailed
            | Error::PoolQueryFailed
            | Error::PoolCoversQueryFailed
            | Error::UserCoverQueryFailed
            | Error::DepositQueryFailed
            | Error::ProposalQueryFailed
            | Error::WeightQueryFailed
            | Error::CoverUpdateFailed
            | Error::StatusUpdateFailed => ErrorKind::DependencyFailure,
        }
    }

    /// The text shown to a caller.
    pub open spec fn text(self) -> Seq<char> {
        match self {
            Error::NotOwner => "Only the owner can do this"@,
            Error::NotCoverContract => "Only the cover contract can do this"@,
            Error::NotAdmin => "Not authorized"@,
            Error::NotClaimant => "Not a valid proposal"@,
            Error::PoolNotFound => "Pool not found"@,
            Error::PoolCoversNotFound => "Pool not found"@,
            Error::CoverNotFound => "Cover not found"@,
            Error::CoverNotInPool => "Cover not found in pool"@,
            Error::ProposalNotFound => "Proposal not found"@,
            Error::DepositNotFound => "No deposit found for caller"@,
            Error::UserCoversNotFound => "User has no covers"@,
            Error::UserCoverNotFound => "user doesnt have this cover"@,
            Error::ParticipationNotFound => "error getting user participation"@,
            Error::ClaimTimeNotFound => "no claim made yet"@,
            Error::LedgerNotSet => "bqBTC canister address not set"@,
            Error::GovernanceNotSet => "Governance canister address not set"@,
            Error::CoverContractNotSet => "Cover canister address not set"@,
            Error::PoolContractNotSet => "LP contract address not set"@,
            Error::InsufficientCapacity => "Insufficient capacity"@,
            Error::CapacityBelowPurchased => "Wrong Pool"@,
            Error::SplitOutOfRange => "Percentage split out of range"@,
            Error::InsufficientPoolFunds => "Not enough funds in the pool"@,
            Error::ExceedsDeposit => "Amount is more than caller deposit"@,
            Error::ClaimExceedsCover => "Claim amount exceeds cover value"@,
            Error::PoolInactive => "Pool is inactive"@,
            Error::DepositLocked => "Cant withdraw before the end of a deposit period"@,
            Error::AlreadyWithdrawn => "Caller has already withdrawn"@,
            Error::EmptyDeposit => "Caller deposit is 0"@,
            Error::ZeroAmount => "Amount is 0"@,
            Error::DepositNotActive => "Deposit is not active"@,
            Error::NoClaimableReward => "No claimable reward"@,
            Error::AlreadyVoted => "Already voted"@,
            Error::VotingClosed => "Voting period elapsed"@,
            Error::ProposalNotApproved => "Proposal not approved"@,
            Error::CoverExists => "Cover Already exists!"@,
            Error::RiskTypeMismatch => "Wrong pool, risk type must be the same!"@,
            Error::InvalidCapacity => "Invalid cover capacity"@,
            Error::AddressesAlreadySet => "Pool or cover address already set"@,
            Error::BurnFailed => "Error burning BQ BTC"@,
            Error::MintFailed => "Error minting BQ BTC"@,
            Error::PoolQueryFailed => "Failed to get pool"@,
            Error::PoolCoversQueryFailed => "Failed to get pool covers"@,
            Error::UserCoverQueryFailed => "Failed to retrieve cover info"@,
            Error::DepositQueryFailed => "Failed to get user deposit information"@,
            Error::ProposalQueryFailed => "Failed to get proposal details"@,
            Error::WeightQueryFailed => "Failed to retrieve voting weight"@,
            Error::CoverUpdateFailed => "Failed to update cover"@,
            Error::StatusUpdateFailed => "Failed to update proposal status"@,
        }
    }

    /// The text shown to a caller.
    pub fn message(&self) -> (r: String)
        ensures
            r@ == self.text(),
    {
        let s: &str = match self {
            Error::NotOwner => "Only the owner can do this",
            Error::NotCoverContract => "Only the cover contract can do this",
            Error::NotAdmin => "Not authorized",
            Error::NotClaimant => "Not a valid proposal",
            Error::PoolNotFound => "Pool not found",
            Error::PoolCoversNotFound => "Pool not found",
            Error::CoverNotFound => "Cover not found",
            Error::CoverNotInPool => "Cover not found in pool",
            Error::ProposalNotFound => "Proposal not found",
            Error::DepositNotFound => "No deposit found for caller",
            Error::UserCoversNotFound => "User has no covers",
            Error::UserCoverNotFound => "user doesnt have this cover",
            Error::ParticipationNotFound => "error getting user participation",
            Error::ClaimTimeNotFound => "no claim made yet",
            Error::LedgerNotSet => "bqBTC canister address not set",
            Error::GovernanceNotSet => "Governance canister address not set",
            Error::CoverContractNotSet => "Cover canister address not set",
            Error::PoolContractNotSet => "LP contract address not set",
            Error::InsufficientCapacity => "Insufficient capacity",
            Error::CapacityBelowPurchased => "Wrong Pool",
            Error::SplitOutOfRange => "Percentage split out of range",
            Error::InsufficientPoolFunds => "Not enough funds in the pool",
            Error::ExceedsDeposit => "Amount is more than caller deposit",
            Error::ClaimExceedsCover => "Claim amount exceeds cover value",
            Error::PoolInactive => "Pool is inactive",
            Error::DepositLocked => "Cant withdraw before the end of a deposit period",
            Error::AlreadyWithdrawn => "Caller has already withdrawn",
            Error::EmptyDeposit => "Caller deposit is 0",
            Error::ZeroAmount => "Amount is 0",
            Error::DepositNotActive => "Deposit is not active",
            Error::NoClaimableReward => "No claimable reward",
            Error::AlreadyVoted => "Already voted",
            Error::VotingClosed => "Voting period elapsed",
            Error::ProposalNotApproved => "Proposal not approved",
            Error::CoverExists => "Cover Already exists!",
            Error::RiskTypeMismatch => "Wrong pool, risk type must be the same!",
            Error::InvalidCapacity => "Invalid cover capacity",
            Error::AddressesAlreadySet => "Pool or cover address already set",
            Error::BurnFailed => "Error burning BQ BTC",
            Error::MintFailed => "Error minting BQ BTC",
            Error::PoolQueryFailed => "Failed to get pool",
            Error::PoolCoversQueryFailed => "Failed to get pool covers",
            Error::UserCoverQueryFailed => "Failed to retrieve cover info",
            Error::DepositQueryFailed => "Failed to get user deposit information",
            Error::ProposalQueryFailed => "Failed to get proposal details",
            Error::WeightQueryFailed => "Failed to retrieve voting weight",
            Error::CoverUpdateFailed => "Failed to update cover",
            Error::StatusUpdateFailed => "Failed to update proposal status",
        };
        s.to_owned()
    }
}

} // verus!
