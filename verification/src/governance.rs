//! Claims governance.
//!
//! A claim is put to the vote as a proposal. Votes weigh as much as the
//! voter's ledger balance when the vote is cast; nobody votes twice on one
//! proposal. An admin tallies the votes, which approves or rejects the claim
//! and names the voters to reward. An approved claim is paid by the pool
//! manager, which then has the proposal marked as claimed.
//!
//! A proposal is created as `Submitted` and without a deadline. Nothing in
//! this module gives it one or makes it `Pending`: whoever embeds the module
//! sets both when the vote is opened. A vote weighs what the ledger reports
//! when the vote is cast, not what the voter held when the proposal was made.

use candid::{Nat, Principal};
use vstd::prelude::*;

use crate::assoc::{lemma_insert_same, lists_values, AssocMap};
use crate::error::{Error, ErrorKind};
use crate::model::Model;
use crate::natural::{nat_add, nat_from_u64, nat_lt, nat_mul, val};
use crate::participation::{counted, noted, record_participation};
use crate::types::{
    GenericCoverInfo, GenericCoverInfoModel, Proposal, ProposalModel, ProposalParam,
    ProposalParamModel, ProposalStatus, Voter, VoterModel,
};

verus! {

/// Everything the governance actor keeps.
#[derive(Debug)]
pub struct State {
    /// The proposals, by id.
    pub proposals: AssocMap<Nat, Proposal>,
    /// How many proposals were made; the id of the latest.
    pub proposal_counter: Nat,
    /// How long a vote lasts, in seconds.
    pub voting_duration: u64,
    /// What each voter on the winning side is paid.
    pub reward_amount: Nat,
    /// Who voted on each proposal, and how.
    pub voters: AssocMap<Nat, AssocMap<Principal, Voter>>,
    /// Who has made proposals, in order of their first.
    pub participants: Vec<Principal>,
    /// How many proposals each participant made.
    pub participation: AssocMap<Principal, Nat>,
    /// Who may tally votes and name admins.
    pub is_admin: AssocMap<Principal, bool>,
    /// The governance token.
    pub governance_token: Option<Principal>,
    /// The pool actor, as given at the start.
    pub lp_contract: Option<Principal>,
    /// The ledger that weighs votes and pays rewards.
    pub bqbtc_contract: Option<Principal>,
    /// The cover actor.
    pub cover_contract: Option<Principal>,
    /// The pool actor.
    pub pool_contract: Option<Principal>,
}

/// What a [`State`] stands for.
pub struct StateModel {
    pub proposals: Map<nat, ProposalModel>,
    pub proposal_counter: nat,
    pub voting_duration: nat,
    pub reward_amount: nat,
    pub voters: Map<nat, Map<Principal, VoterModel>>,
    pub participants: Seq<Principal>,
    pub participation: Map<Principal, nat>,
    pub is_admin: Map<Principal, bool>,
    pub governance_token: Option<Principal>,
    pub lp_contract: Option<Principal>,
    pub bqbtc_contract: Option<Principal>,
    pub cover_contract: Option<Principal>,
    pub pool_contract: Option<Principal>,
}

impl Model for State {
    type M = StateModel;

    open spec fn model(&self) -> StateModel {
        StateModel {
            proposals: self.proposals.model(),
            proposal_counter: self.proposal_counter.model(),
            voting_duration: self.voting_duration.model(),
            reward_amount: self.reward_amount.model(),
            voters: self.voters.model(),
            participants: self.participants.model(),
            participation: self.participation.model(),
            is_admin: self.is_admin.model(),
            governance_token: self.governance_token.model(),
            lp_contract: self.lp_contract.model(),
            bqbtc_contract: self.bqbtc_contract.model(),
            cover_contract: self.cover_contract.model(),
            pool_contract: self.pool_contract.model(),
        }
    }

    fn duplicate(&self) -> (r: Self) {
        State {
            proposals: self.proposals.duplicate(),
            proposal_counter: self.proposal_counter.duplicate(),
            voting_duration: self.voting_duration,
            reward_amount: self.reward_amount.duplicate(),
            voters: self.voters.duplicate(),
            participants: self.participants.duplicate(),
            participation: self.participation.duplicate(),
            is_admin: self.is_admin.duplicate(),
            governance_token: self.governance_token.duplicate(),
            lp_contract: self.lp_contract.duplicate(),
            bqbtc_contract: self.bqbtc_contract.duplicate(),
            cover_contract: self.cover_contract.duplicate(),
            pool_contract: self.pool_contract.duplicate(),
        }
    }
}

impl Clone for State {
    fn clone(&self) -> (r: Self)
        ensures
            r.model() == self.model(),
    {
        self.duplicate()
    }
}

/// Rewards that the ledger is to mint after a tally: the same amount to each
/// recipient. A mint that fails holds up none of the others.
#[derive(Debug)]
pub struct RewardOrder {
    /// The ledger that is to mint.
    pub ledger: Principal,
    /// What each recipient gets.
    pub amount: Nat,
    /// The voters on the winning side, in voting order.
    pub recipients: Vec<Principal>,
}

/// What a [`RewardOrder`] stands for.
pub struct RewardOrderModel {
    pub ledger: Principal,
    pub amount: nat,
    pub recipients: Seq<Principal>,
}

impl Model for RewardOrder {
    type M = RewardOrderModel;

    open spec fn model(&self) -> RewardOrderModel {
        RewardOrderModel {
            ledger: self.ledger,
            amount: self.amount.model(),
            recipients: self.recipients.model(),
        }
    }

    fn duplicate(&self) -> (r: Self) {
        RewardOrder {
            ledger: self.ledger,
            amount: self.amount.duplicate(),
            recipients: self.recipients.duplicate(),
        }
    }
}

/// The reward a governance actor starts with: 100 tokens of 18 decimals.
pub open spec fn initial_reward() -> nat {
    100 * 1_000_000_000_000_000_000
}

/// A proposal as it is created: no votes, no deadline, submitted.
pub open spec fn fresh_proposal(id: nat, params: ProposalParamModel, now: nat) -> ProposalModel {
    ProposalModel {
        id,
        votes_for: 0,
        votes_against: 0,
        created_at: now,
        deadline: 0,
        timeleft: 0,
        executed: false,
        status: ProposalStatus::Submitted,
        proposal_param: params,
        voters_for: Seq::empty(),
        voters_against: Seq::empty(),
    }
}

/// A proposal after one more vote of weight `weight`.
pub open spec fn voted_on(p: ProposalModel, voter: Principal, in_favor: bool, weight: nat) -> ProposalModel {
    if in_favor {
        ProposalModel {
            votes_for: p.votes_for + weight,
            voters_for: p.voters_for.push(voter),
            ..p
        }
    } else {
        ProposalModel {
            votes_against: p.votes_against + weight,
            voters_against: p.voters_against.push(voter),
            ..p
        }
    }
}

/// Whether a proposal is due for its tally at `now`: it is pending, past its
/// deadline, and not tallied yet.
pub open spec fn due(p: ProposalModel, now: nat) -> bool {
    p.status == ProposalStatus::Pending && now > p.deadline && !p.executed
}

/// A proposal after its tally: approved if the weight in favour exceeds the
/// weight against, else rejected.
pub open spec fn tallied(p: ProposalModel) -> ProposalModel {
    ProposalModel {
        executed: true,
        timeleft: 0,
        status: if p.votes_for > p.votes_against {
            ProposalStatus::Approved
        } else {
            ProposalStatus::Rejected
        },
        ..p
    }
}

/// The voters on the side that won.
pub open spec fn winners(p: ProposalModel) -> Seq<Principal> {
    if p.votes_for > p.votes_against {
        p.voters_for
    } else {
        p.voters_against
    }
}

/// Whether a proposal has no deadline, or one that lies ahead at `now`.
pub open spec fn open_at(p: ProposalModel, now: nat) -> bool {
    p.deadline == 0 || p.deadline > now
}

/// Whether a proposal has no deadline, or one that lies ahead at `now` while
/// the proposal is not tallied.
pub open spec fn active_at(p: ProposalModel, now: nat) -> bool {
    p.deadline == 0 || (p.deadline > now && !p.executed)
}

impl StateModel {
    /// The state of a governance actor that has done nothing yet.
    pub open spec fn initial() -> StateModel {
        StateModel {
            proposals: Map::empty(),
            proposal_counter: 0,
            voting_duration: 0,
            reward_amount: 0,
            voters: Map::empty(),
            participants: Seq::empty(),
            participation: Map::empty(),
            is_admin: Map::empty(),
            governance_token: None,
            lp_contract: None,
            bqbtc_contract: None,
            cover_contract: None,
            pool_contract: None,
        }
    }

    /// The state after [`init`].
    pub open spec fn init(
        self,
        owner: Principal,
        governance_token: Principal,
        lp_contract: Principal,
        voting_duration_minutes: nat,
    ) -> StateModel {
        StateModel {
            is_admin: self.is_admin.insert(owner, true),
            voting_duration: voting_duration_minutes * 60,
            governance_token: Some(governance_token),
            lp_contract: Some(lp_contract),
            reward_amount: initial_reward(),
            ..self
        }
    }

    /// Whether `who` is an admin.
    pub open spec fn admin(self, who: Principal) -> bool {
        self.is_admin.contains_key(who) && self.is_admin[who]
    }

    /// Whether `who` has voted on proposal `proposal_id`.
    pub open spec fn has_voted(self, proposal_id: nat, who: Principal) -> bool {
        &&& self.voters.contains_key(proposal_id)
        &&& self.voters[proposal_id].contains_key(who)
        &&& self.voters[proposal_id][who].voted
    }

    /// The votes cast on a proposal so far, or none.
    pub open spec fn votes_on(self, proposal_id: nat) -> Map<Principal, VoterModel> {
        if self.voters.contains_key(proposal_id) {
            self.voters[proposal_id]
        } else {
            Map::empty()
        }
    }

    /// The proposals that count as active at `now`: those without a
    /// deadline, and those whose deadline lies ahead and that are not
    /// tallied.
    pub open spec fn active_proposals(self, now: nat) -> Map<nat, ProposalModel> {
        Map::new(
            |id: nat| self.proposals.contains_key(id) && active_at(self.proposals[id], now),
            |id: nat| self.proposals[id],
        )
    }

    /// The proposals without a deadline, and those whose deadline lies
    /// ahead at `now`.
    pub open spec fn past_proposals(self, now: nat) -> Map<nat, ProposalModel> {
        Map::new(
            |id: nat| self.proposals.contains_key(id) && open_at(self.proposals[id], now),
            |id: nat| self.proposals[id],
        )
    }

    /// The state after [`create_proposal`], and what it returns. A call that is
    /// refused leaves the state as it was.
    pub open spec fn create_proposal(
        self,
        caller: Principal,
        params: ProposalParamModel,
        cover: Option<GenericCoverInfoModel>,
        now: nat,
    ) -> (StateModel, Result<(), Error>) {
        if cover is None {
            (self, Err(Error::UserCoverQueryFailed))
        } else if params.claim_amount > cover->0.cover_value {
            (self, Err(Error::ClaimExceedsCover))
        } else {
            let id = self.proposal_counter + 1;
            (
                StateModel {
                    proposals: self.proposals.insert(id, fresh_proposal(id, params, now)),
                    proposal_counter: id,
                    participants: noted(self.participants, caller),
                    participation: counted(self.participation, caller),
                    ..self
                },
                Ok(()),
            )
        }
    }

    /// Why a vote is refused, if it is.
    pub open spec fn vote_refusal(
        self,
        caller: Principal,
        proposal_id: nat,
        weight: Option<nat>,
        now: nat,
    ) -> Option<Error> {
        if self.bqbtc_contract is None {
            Some(Error::LedgerNotSet)
        } else if weight is None {
            Some(Error::WeightQueryFailed)
        } else if !self.proposals.contains_key(proposal_id) {
            Some(Error::ProposalNotFound)
        } else if self.has_voted(proposal_id, caller) {
            Some(Error::AlreadyVoted)
        } else if now >= self.proposals[proposal_id].deadline && self.proposals[proposal_id].status
            != ProposalStatus::Submitted {
            Some(Error::VotingClosed)
        } else {
            None
        }
    }

    /// The state after [`vote`], and what it returns. A call that is
    /// refused leaves the state as it was.
    pub open spec fn vote(
        self,
        caller: Principal,
        proposal_id: nat,
        in_favor: bool,
        weight: Option<nat>,
        now: nat,
    ) -> (StateModel, Result<(), Error>) {
        match self.vote_refusal(caller, proposal_id, weight, now) {
            Some(e) => (self, Err(e)),
            None => (
                StateModel {
                    proposals: self.proposals.insert(
                        proposal_id,
                        voted_on(self.proposals[proposal_id], caller, in_favor, weight->0),
                    ),
                    voters: self.voters.insert(
                        proposal_id,
                        self.votes_on(proposal_id).insert(
                            caller,
                            VoterModel { voted: true, vote: in_favor, weight: weight->0 },
                        ),
                    ),
                    ..self
                },
                Ok(()),
            ),
        }
    }

    /// The state after [`execute_proposal`], and what it returns. A call that is
    /// refused leaves the state as it was.
    pub open spec fn execute_proposal(self, caller: Principal, proposal_id: nat, now: nat) -> (
        StateModel,
        Result<RewardOrderModel, Error>,
    ) {
        if !self.admin(caller) {
            (self, Err(Error::NotAdmin))
        } else if self.bqbtc_contract is None {
            (self, Err(Error::LedgerNotSet))
        } else if !self.proposals.contains_key(proposal_id) {
            (self, Err(Error::ProposalNotFound))
        } else {
            let p = self.proposals[proposal_id];
            if due(p, now) {
                (
                    StateModel { proposals: self.proposals.insert(proposal_id, tallied(p)), ..self },
                    Ok(
                        RewardOrderModel {
                            ledger: self.bqbtc_contract->0,
                            amount: self.reward_amount,
                            recipients: winners(p),
                        },
                    ),
                )
            } else {
                (
                    self,
                    Ok(
                        RewardOrderModel {
                            ledger: self.bqbtc_contract->0,
                            amount: self.reward_amount,
                            recipients: Seq::empty(),
                        },
                    ),
                )
            }
        }
    }

    /// The state after [`update_proposal_to_claimed`], and what it returns. A call that is
    /// refused leaves the state as it was.
    pub open spec fn update_proposal_to_claimed(self, proposal_id: nat) -> (
        StateModel,
        Result<(), Error>,
    ) {
        if !self.proposals.contains_key(proposal_id) {
            (self, Err(Error::ProposalNotFound))
        } else {
            (
                StateModel {
                    proposals: self.proposals.insert(
                        proposal_id,
                        ProposalModel {
                            status: ProposalStatus::Claimed,
                            ..self.proposals[proposal_id]
                        },
                    ),
                    ..self
                },
                Ok(()),
            )
        }
    }

    /// The state after [`add_admin`], and what it returns. A call that is
    /// refused leaves the state as it was.
    pub open spec fn add_admin(self, caller: Principal, new_admin: Principal) -> (
        StateModel,
        Result<(), Error>,
    ) {
        if !self.admin(caller) {
            (self, Err(Error::NotAdmin))
        } else {
            (StateModel { is_admin: self.is_admin.insert(new_admin, true), ..self }, Ok(()))
        }
    }
}

impl State {
    /// A governance actor that has done nothing yet.
    pub fn new() -> (r: State)
        ensures
            r.model() == StateModel::initial(),
    {
        let r = State {
            proposals: AssocMap::new(),
            proposal_counter: nat_from_u64(0),
            voting_duration: 0,
            reward_amount: nat_from_u64(0),
            voters: AssocMap::new(),
            participants: Vec::new(),
            participation: AssocMap::new(),
            is_admin: AssocMap::new(),
            governance_token: None,
            lp_contract: None,
            bqbtc_contract: None,
            cover_contract: None,
            pool_contract: None,
        };
        assert(r.participants.model() =~= Seq::empty());
        r
    }
}

/// Makes `owner` an admin, and sets the governance token, the pool actor, the
/// length of a vote and the reward.
pub fn init(
    state: &mut State,
    owner: Principal,
    governance_token: Principal,
    lp_contract: Principal,
    voting_duration_minutes: u64,
)
    requires
        voting_duration_minutes * 60 <= u64::MAX,
    ensures
        final(state).model() == old(state).model().init(
            owner,
            governance_token,
            lp_contract,
            voting_duration_minutes as nat,
        ),
{
    state.is_admin.insert(owner, true);
    state.voting_duration = voting_duration_minutes * 60;
    state.governance_token = Some(governance_token);
    state.lp_contract = Some(lp_contract);
    state.reward_amount = nat_mul(nat_from_u64(100), nat_from_u64(1_000_000_000_000_000_000));
}

/// Whether `who` is an admin.
pub fn is_admin(state: &State, who: &Principal) -> (r: bool)
    ensures
        r == state.model().admin(*who),
{
    match state.is_admin.get(who) {
        Some(flag) => *flag,
        None => false,
    }
}

/// Whether `who` has voted on a proposal.
pub fn has_voted(state: &State, proposal_id: &Nat, who: &Principal) -> (r: bool)
    ensures
        r == state.model().has_voted(val(proposal_id), *who),
{
    match state.voters.get(proposal_id) {
        Some(votes) => match votes.get(who) {
            Some(voter) => voter.voted,
            None => false,
        },
        None => false,
    }
}

/// Puts a claim to the vote. `cover` is what the cover actor returned for
/// the claimant's purchase of the cover claimed against, or `None` if it
/// returned nothing. The claim may not exceed the value covered. The proposal
/// gets the next id, no votes, no deadline, and the status `Submitted`.
pub fn create_proposal(
    state: &mut State,
    caller: Principal,
    params: ProposalParam,
    cover: Option<GenericCoverInfo>,
    now: u64,
) -> (r: Result<(), Error>)
    ensures
        (final(state).model(), r) == old(state).model().create_proposal(
            caller,
            params.model(),
            cover.model(),
            now as nat,
        ),
{
    let cover = match cover {
        Some(cover) => cover,
        None => { return Err(Error::UserCoverQueryFailed); },
    };
    if nat_lt(&cover.cover_value, &params.claim_amount) {
        return Err(Error::ClaimExceedsCover);
    }
    let proposal_id = nat_add(state.proposal_counter.clone(), nat_from_u64(1));
    state.proposal_counter = proposal_id.clone();
    let proposal = Proposal {
        id: proposal_id.clone(),
        votes_for: nat_from_u64(0),
        votes_against: nat_from_u64(0),
        created_at: nat_from_u64(now),
        deadline: nat_from_u64(0),
        timeleft: nat_from_u64(0),
        executed: false,
        status: ProposalStatus::Submitted,
        proposal_param: params,
        voters_for: Vec::new(),
        voters_against: Vec::new(),
    };
    proof {
        assert(proposal.voters_for.model() =~= Seq::empty());
        assert(proposal.voters_against.model() =~= Seq::empty());
    }
    state.proposals.insert(proposal_id, proposal);
    record_participation(&mut state.participants, &mut state.participation, caller);
    Ok(())
}

/// Casts the caller's vote on a proposal. `weight` is the caller's ledger
/// balance as the ledger just reported it, or `None` if it reported nothing.
/// A caller who has voted on the proposal is refused, and nothing changes.
/// Else the weight is added to the side voted for, the caller joins that
/// side's voters, and the vote is put on record.
pub fn vote(
    state: &mut State,
    caller: Principal,
    proposal_id: Nat,
    in_favor: bool,
    weight: Option<Nat>,
    now: u64,
) -> (r: Result<(), Error>)
    ensures
        (final(state).model(), r) == old(state).model().vote(
            caller,
            val(&proposal_id),
            in_favor,
            weight.model(),
            now as nat,
        ),
        old(state).model().has_voted(val(&proposal_id), caller) ==> r is Err
            && final(state).model() == old(state).model(),
{
    if state.bqbtc_contract.is_none() {
        return Err(Error::LedgerNotSet);
    }
    let voter_weight = match weight {
        Some(w) => w,
        None => { return Err(Error::WeightQueryFailed); },
    };
    if !state.proposals.contains_key(&proposal_id) {
        return Err(Error::ProposalNotFound);
    }
    if has_voted(state, &proposal_id, &caller) {
        return Err(Error::AlreadyVoted);
    }
    match state.proposals.get_mut(&proposal_id) {
        None => { return Err(Error::ProposalNotFound); },
        Some(proposal) => {
            proof {
                lemma_insert_same(old(state).model().proposals, val(&proposal_id));
            }
            if !nat_lt(&nat_from_u64(now), &proposal.deadline) && proposal.status
                != ProposalStatus::Submitted {
                return Err(Error::VotingClosed);
            }
            let ghost before = proposal.model();
            if in_favor {
                proposal.votes_for = nat_add(proposal.votes_for.clone(), voter_weight.clone());
                proposal.voters_for.push(caller);
                proof {
                    assert(proposal.voters_for.model() =~= before.voters_for.push(caller));
                }
            } else {
                proposal.votes_against = nat_add(
                    proposal.votes_against.clone(),
                    voter_weight.clone(),
                );
                proposal.voters_against.push(caller);
                proof {
                    assert(proposal.voters_against.model() =~= before.voters_against.push(caller));
                }
            }
        },
    }
    let record = Voter { voted: true, vote: in_favor, weight: voter_weight };
    match state.voters.get_mut(&proposal_id) {
        Some(votes) => {
            votes.insert(caller, record);
        },
        None => {
            let mut votes: AssocMap<Principal, Voter> = AssocMap::new();
            votes.insert(caller, record);
            state.voters.insert(proposal_id, votes);
        },
    }
    Ok(())
}

/// Tallies the votes on a proposal. Only an admin may. A proposal that is
/// pending, past its deadline and not tallied yet becomes approved if the
/// weight in favour exceeds the weight against, and rejected if not; the
/// voters on that side are to be rewarded. Any other proposal is left as it
/// is, and nobody is rewarded.
pub fn execute_proposal(state: &mut State, caller: Principal, proposal_id: Nat, now: u64) -> (r:
    Result<RewardOrder, Error>)
    ensures
        (final(state).model(), r.model()) == old(state).model().execute_proposal(
            caller,
            val(&proposal_id),
            now as nat,
        ),
{
    if !is_admin(state, &caller) {
        return Err(Error::NotAdmin);
    }
    let ledger = match state.bqbtc_contract {
        Some(ledger) => ledger,
        None => { return Err(Error::LedgerNotSet); },
    };
    let amount = state.reward_amount.clone();
    let mut recipients: Vec<Principal> = Vec::new();
    proof {
        assert(recipients.model() =~= Seq::empty());
    }
    match state.proposals.get_mut(&proposal_id) {
        None => { return Err(Error::ProposalNotFound); },
        Some(proposal) => {
            proof {
                lemma_insert_same(old(state).model().proposals, val(&proposal_id));
            }
            if proposal.status == ProposalStatus::Pending && nat_lt(
                &proposal.deadline,
                &nat_from_u64(now),
            ) && !proposal.executed {
                proposal.executed = true;
                proposal.timeleft = nat_from_u64(0);
                if nat_lt(&proposal.votes_against, &proposal.votes_for) {
                    proposal.status = ProposalStatus::Approved;
                    recipients = proposal.voters_for.duplicate();
                } else {
                    proposal.status = ProposalStatus::Rejected;
                    recipients = proposal.voters_against.duplicate();
                }
            }
        },
    }
    Ok(RewardOrder { ledger, amount, recipients })
}

/// Marks a proposal as claimed, the last step of its life.
pub fn update_proposal_to_claimed(state: &mut State, proposal_id: Nat) -> (r: Result<(), Error>)
    ensures
        (final(state).model(), r) == old(state).model().update_proposal_to_claimed(
            val(&proposal_id),
        ),
{
    match state.proposals.get_mut(&proposal_id) {
        None => Err(Error::ProposalNotFound),
        Some(proposal) => {
            proposal.status = ProposalStatus::Claimed;
            Ok(())
        },
    }
}

/// Sets how long a vote lasts, in seconds.
pub fn set_voting_duration(state: &mut State, duration: u64) -> (r: Result<(), Error>)
    ensures
        r is Ok,
        final(state).model() == (StateModel {
            voting_duration: duration as nat,
            ..old(state).model()
        }),
{
    state.voting_duration = duration;
    Ok(())
}

/// Sets what each voter on the winning side is paid.
pub fn update_reward_amount(state: &mut State, reward: Nat) -> (r: Result<(), Error>)
    ensures
        r is Ok,
        final(state).model() == (StateModel { reward_amount: val(&reward), ..old(state).model() }),
{
    state.reward_amount = reward;
    Ok(())
}

/// How many proposals were made.
pub fn get_proposal_count(state: &State) -> (r: Result<Nat, Error>)
    ensures
        r.model() == Ok::<nat, Error>(state.model().proposal_counter),
{
    Ok(state.proposal_counter.clone())
}

/// All proposals, each once.
pub fn get_all_proposals(state: &State) -> (r: Result<Vec<Proposal>, Error>)
    ensures
        r is Ok,
        lists_values(r->Ok_0.model(), state.model().proposals),
{
    Ok(state.proposals.values())
}

/// The proposals that count as active at `now`, each once.
pub fn get_active_proposals(state: &State, now: u64) -> (r: Result<Vec<Proposal>, Error>)
    ensures
        r is Ok,
        lists_values(r->Ok_0.model(), state.model().active_proposals(now as nat)),
{
    let n: usize = state.proposals.len();
    let zero = nat_from_u64(0);
    let current = nat_from_u64(now);
    let mut flags: Vec<bool> = Vec::new();
    let mut i: usize = 0;
    while i < n
        invariant
            state.proposals.wf(),
            n == state.proposals.key_seq().len(),
            val(&zero) == 0,
            val(&current) == now,
            i <= n,
            flags@.len() == i,
            forall|j: int|
                0 <= j < i ==> flags@[j] == active_at(
                    #[trigger] state.proposals.value_seq()[j],
                    now as nat,
                ),
        decreases n - i,
    {
        let p = state.proposals.value_at(i);
        flags.push(
            !nat_lt(&zero, &p.deadline) || (nat_lt(&current, &p.deadline) && !p.executed),
        );
        i += 1;
    }
    proof {
        assert forall|k: nat| state.proposals.contains(k) implies (flags@[state.proposals.index_of(
            k,
        )] <==> active_at(state.model().proposals[k], now as nat)) by {
            let x = state.proposals.index_of(k);
            assert(flags@[x] == active_at(state.proposals.value_seq()[x], now as nat));
        }
        assert(state.proposals.flagged(flags@) =~= state.model().active_proposals(now as nat));
    }
    Ok(state.proposals.select(&flags))
}

/// The proposals without a deadline or with one that lies ahead at `now`,
/// each once.
pub fn get_past_proposals(state: &State, now: u64) -> (r: Result<Vec<Proposal>, Error>)
    ensures
        r is Ok,
        lists_values(r->Ok_0.model(), state.model().past_proposals(now as nat)),
{
    let n: usize = state.proposals.len();
    let zero = nat_from_u64(0);
    let current = nat_from_u64(now);
    let mut flags: Vec<bool> = Vec::new();
    let mut i: usize = 0;
    while i < n
        invariant
            state.proposals.wf(),
            n == state.proposals.key_seq().len(),
            val(&zero) == 0,
            val(&current) == now,
            i <= n,
            flags@.len() == i,
            forall|j: int|
                0 <= j < i ==> flags@[j] == open_at(
                    #[trigger] state.proposals.value_seq()[j],
                    now as nat,
                ),
        decreases n - i,
    {
        let p = state.proposals.value_at(i);
        flags.push(!nat_lt(&zero, &p.deadline) || nat_lt(&current, &p.deadline));
        i += 1;
    }
    proof {
        assert forall|k: nat| state.proposals.contains(k) implies (flags@[state.proposals.index_of(
            k,
        )] <==> open_at(state.model().proposals[k], now as nat)) by {
            let x = state.proposals.index_of(k);
            assert(flags@[x] == open_at(state.proposals.value_seq()[x], now as nat));
        }
        assert(state.proposals.flagged(flags@) =~= state.model().past_proposals(now as nat));
    }
    Ok(state.proposals.select(&flags))
}

/// Who has made proposals, in order of their first.
pub fn get_all_participants(state: &State) -> (r: Result<Vec<Principal>, Error>)
    ensures
        r.model() == Ok::<Seq<Principal>, Error>(state.model().participants),
{
    Ok(state.participants.duplicate())
}

/// How many proposals `user` made.
pub fn get_user_participation(state: &State, user: Principal) -> (r: Result<Nat, Error>)
    ensures
        r.model() == if state.model().participation.contains_key(user) {
            Ok::<nat, Error>(state.model().participation[user])
        } else {
            Err(Error::ParticipationNotFound)
        },
{
    match state.participation.get(&user) {
        Some(count) => Ok(count.clone()),
        None => Err(Error::ParticipationNotFound),
    }
}

/// The proposal of the given id.
pub fn get_proposal_details(state: &State, proposal_id: &Nat) -> (r: Result<Proposal, Error>)
    ensures
        r.model() == if state.model().proposals.contains_key(val(proposal_id)) {
            Ok::<ProposalModel, Error>(state.model().proposals[val(proposal_id)])
        } else {
            Err(Error::ProposalNotFound)
        },
{
    match state.proposals.get(proposal_id) {
        Some(p) => Ok(p.clone()),
        None => Err(Error::ProposalNotFound),
    }
}

/// Makes `new_admin` an admin. Only an admin may.
pub fn add_admin(state: &mut State, caller: Principal, new_admin: Principal) -> (r: Result<(), Error>)
    ensures
        (final(state).model(), r) == old(state).model().add_admin(caller, new_admin),
{
    if !is_admin(state, &caller) {
        return Err(Error::NotAdmin);
    }
    state.is_admin.insert(new_admin, true);
    Ok(())
}

/// Nobody votes twice. Once an identity's vote on a proposal has been
/// taken, any further vote of that identity on that proposal, in either
/// direction and at any time, is refused as already cast, and leaves the
/// whole state, tallies included, as it was. (This is said of a further vote
/// for which the ledger reported a weight.)
pub proof fn lemma_no_double_vote(
    s: StateModel,
    caller: Principal,
    proposal_id: nat,
    in_favor: bool,
    weight: Option<nat>,
    now: nat,
    again_in_favor: bool,
    again_weight: nat,
    later: nat,
)
    requires
        s.vote(caller, proposal_id, in_favor, weight, now).1 is Ok,
    ensures
        ({
            let after = s.vote(caller, proposal_id, in_favor, weight, now).0;
            let again = after.vote(caller, proposal_id, again_in_favor, Some(again_weight), later);
            &&& again.1 == Err::<(), Error>(Error::AlreadyVoted)
            &&& Error::AlreadyVoted.kind_of() == ErrorKind::InvalidState
            &&& again.0 == after
            &&& again.0.proposals[proposal_id].votes_for == after.proposals[proposal_id].votes_for
            &&& again.0.proposals[proposal_id].votes_against
                == after.proposals[proposal_id].votes_against
        }),
{
}

/// A vote that is refused changes nothing, whatever the reason.
pub proof fn lemma_refused_vote_changes_nothing(
    s: StateModel,
    caller: Principal,
    proposal_id: nat,
    in_favor: bool,
    weight: Option<nat>,
    now: nat,
)
    requires
        s.vote(caller, proposal_id, in_favor, weight, now).1 is Err,
    ensures
        s.vote(caller, proposal_id, in_favor, weight, now).0 == s,
{
}

/// A vote that is taken adds the voter's weight to the side voted for, and
/// to that side only.
pub proof fn lemma_vote_adds_weight(
    s: StateModel,
    caller: Principal,
    proposal_id: nat,
    in_favor: bool,
    weight: nat,
    now: nat,
)
    requires
        s.vote(caller, proposal_id, in_favor, Some(weight), now).1 is Ok,
    ensures
        ({
            let before = s.proposals[proposal_id];
            let after = s.vote(caller, proposal_id, in_favor, Some(weight), now).0.proposals[proposal_id];
            &&& after.votes_for == before.votes_for + (if in_favor {
                weight
            } else {
                0
            })
            &&& after.votes_against == before.votes_against + (if in_favor {
                0
            } else {
                weight
            })
            &&& s.vote(caller, proposal_id, in_favor, Some(weight), now).0.has_voted(
                proposal_id,
                caller,
            )
        }),
{
}

/// A tally moves a proposal from `Pending` to `Approved` or `Rejected`, and
/// moves no proposal that is not pending. It changes no tally and no other
/// proposal, and the voters it names are those of the side that won.
pub proof fn lemma_tally_steps(s: StateModel, caller: Principal, proposal_id: nat, now: nat)
    requires
        s.execute_proposal(caller, proposal_id, now).1 is Ok,
    ensures
        ({
            let before = s.proposals[proposal_id];
            let after = s.execute_proposal(caller, proposal_id, now).0.proposals[proposal_id];
            let order = s.execute_proposal(caller, proposal_id, now).1->Ok_0;
            &&& s.admin(caller)
            &&& after.votes_for == before.votes_for
            &&& after.votes_against == before.votes_against
            &&& after.status != before.status ==> before.status == ProposalStatus::Pending && (
            after.status == ProposalStatus::Approved || after.status == ProposalStatus::Rejected)
            &&& after.status == ProposalStatus::Approved && before.status
                != ProposalStatus::Approved ==> before.votes_for > before.votes_against
                && order.recipients == before.voters_for
            &&& after.status == ProposalStatus::Rejected && before.status
                != ProposalStatus::Rejected ==> before.votes_for <= before.votes_against
                && order.recipients == before.voters_against
            &&& after.status == before.status ==> order.recipients == Seq::<Principal>::empty()
            &&& forall|other: nat|
                other != proposal_id && s.proposals.contains_key(other) ==> #[trigger] s.execute_proposal(
                    caller,
                    proposal_id,
                    now,
                ).0.proposals[other] == s.proposals[other]
        }),
{
}

/// A proposal that has been tallied is never tallied again: a second tally
/// changes nothing and rewards nobody.
pub proof fn lemma_tally_once(s: StateModel, caller: Principal, proposal_id: nat, now: nat, later: nat)
    requires
        s.execute_proposal(caller, proposal_id, now).1 is Ok,
        due(s.proposals[proposal_id], now),
    ensures
        ({
            let after = s.execute_proposal(caller, proposal_id, now).0;
            let again = after.execute_proposal(caller, proposal_id, later);
            &&& again.0 == after
            &&& again.1 is Ok
            &&& again.1->Ok_0.recipients == Seq::<Principal>::empty()
        }),
{
    let after = s.execute_proposal(caller, proposal_id, now).0;
    assert(after.proposals[proposal_id].executed);
    assert(!due(after.proposals[proposal_id], later));
}

/// Marking a proposal as claimed ends its life: it is `Claimed` from then
/// on, whatever is voted or tallied afterwards.
pub proof fn lemma_claimed_is_final(
    s: StateModel,
    proposal_id: nat,
    caller: Principal,
    in_favor: bool,
    weight: Option<nat>,
    now: nat,
)
    requires
        s.proposals.contains_key(proposal_id),
    ensures
        ({
            let claimed = s.update_proposal_to_claimed(proposal_id).0;
            &&& claimed.proposals[proposal_id].status == ProposalStatus::Claimed
            &&& claimed.vote(caller, proposal_id, in_favor, weight, now).0.proposals[proposal_id].status
                == ProposalStatus::Claimed
            &&& claimed.execute_proposal(caller, proposal_id, now).0.proposals[proposal_id].status
                == ProposalStatus::Claimed
        }),
{
}

} // verus!
