use bq_protocol::error::{Error, ErrorKind};
use bq_protocol::governance;
use bq_protocol::types::{GenericCoverInfo, ProposalParam, ProposalStatus, RiskType};
use candid::{Nat, Principal};

fn p(x: u8) -> Principal {
    Principal::from_slice(&[x])
}

fn q(v: u64) -> Nat {
    Nat::from(v)
}

const ADMIN: u8 = 1;
const TOKEN: u8 = 2;
const POOL: u8 = 3;
const LEDGER: u8 = 4;
const COVER: u8 = 5;

fn gov() -> governance::State {
    let mut state = governance::State::new();
    governance::init(&mut state, p(ADMIN), p(TOKEN), p(POOL), 10);
    state.bqbtc_contract = Some(p(LEDGER));
    state.cover_contract = Some(p(COVER));
    state
}

fn bought(value: u64) -> GenericCoverInfo {
    GenericCoverInfo {
        user: p(9),
        cover_id: q(7),
        risk_type: RiskType::Stablecoin,
        cover_name: "seven".to_string(),
        cover_value: q(value),
        claim_paid: q(0),
        cover_period: q(30),
        end_day: q(1_000_000),
        is_active: true,
    }
}

fn claim(amount: u64) -> ProposalParam {
    ProposalParam { user: p(9), cover_id: q(7), pool_id: q(1), claim_amount: q(amount) }
}

fn gov_with_proposal() -> governance::State {
    let mut state = gov();
    governance::create_proposal(&mut state, p(9), claim(100), Some(bought(150)), 500).unwrap();
    state
}

fn make_pending(state: &mut governance::State, deadline: u64) {
    let proposal = state.proposals.get_mut(&q(1)).unwrap();
    proposal.status = ProposalStatus::Pending;
    proposal.deadline = q(deadline);
}

#[test]
fn init_sets_admin_duration_and_reward() {
    let state = gov();
    assert!(governance::is_admin(&state, &p(ADMIN)));
    assert!(!governance::is_admin(&state, &p(9)));
    assert_eq!(state.voting_duration, 600);
    assert_eq!(state.governance_token, Some(p(TOKEN)));
    assert_eq!(state.lp_contract, Some(p(POOL)));
    assert_eq!(state.reward_amount, Nat::from(100_000_000_000_000_000_000u128));
    assert_eq!(governance::get_proposal_count(&state), Ok(q(0)));
    assert_eq!(state.pool_contract, None);
}

#[test]
fn scenario_claim_above_cover_value_is_refused() {
    let mut state = gov();
    assert_eq!(
        governance::create_proposal(&mut state, p(9), claim(200), Some(bought(150)), 500),
        Err(Error::ClaimExceedsCover)
    );
    assert_eq!(Error::ClaimExceedsCover.kind(), ErrorKind::InsufficientBalance);
    assert_eq!(governance::get_proposal_count(&state), Ok(q(0)));
    assert_eq!(governance::get_all_proposals(&state).unwrap().len(), 0);
    assert_eq!(governance::get_all_participants(&state), Ok(vec![]));
}

#[test]
fn create_proposal_starts_a_submitted_proposal() {
    let mut state = gov();
    assert_eq!(governance::create_proposal(&mut state, p(9), claim(150), Some(bought(150)), 500), Ok(()));
    assert_eq!(governance::create_proposal(&mut state, p(9), claim(0), Some(bought(150)), 600), Ok(()));
    assert_eq!(governance::get_proposal_count(&state), Ok(q(2)));
    let first = governance::get_proposal_details(&state, &q(1)).unwrap();
    assert_eq!(first.id, q(1));
    assert_eq!(first.votes_for, q(0));
    assert_eq!(first.votes_against, q(0));
    assert_eq!(first.created_at, q(500));
    assert_eq!(first.deadline, q(0));
    assert_eq!(first.timeleft, q(0));
    assert!(!first.executed);
    assert_eq!(first.status, ProposalStatus::Submitted);
    assert_eq!(first.proposal_param.user, p(9));
    assert_eq!(first.proposal_param.cover_id, q(7));
    assert_eq!(first.proposal_param.pool_id, q(1));
    assert_eq!(first.proposal_param.claim_amount, q(150));
    assert_eq!(first.voters_for, vec![]);
    assert_eq!(first.voters_against, vec![]);
    assert_eq!(governance::get_proposal_details(&state, &q(2)).unwrap().created_at, q(600));
    assert_eq!(governance::get_proposal_details(&state, &q(3)).err(), Some(Error::ProposalNotFound));
    assert_eq!(governance::get_all_participants(&state), Ok(vec![p(9)]));
    assert_eq!(governance::get_user_participation(&state, p(9)), Ok(q(2)));
    assert_eq!(governance::get_user_participation(&state, p(8)), Err(Error::ParticipationNotFound));
}

#[test]
fn create_proposal_needs_the_cover_record() {
    let mut state = gov();
    assert_eq!(
        governance::create_proposal(&mut state, p(9), claim(1), None, 500),
        Err(Error::UserCoverQueryFailed)
    );
    assert_eq!(governance::get_proposal_count(&state), Ok(q(0)));
}

#[test]
fn scenario_a_second_vote_fails_and_tallies_stay() {
    let mut state = gov_with_proposal();
    assert_eq!(governance::vote(&mut state, p(20), q(1), true, Some(q(5)), 600), Ok(()));
    assert_eq!(
        governance::vote(&mut state, p(20), q(1), true, Some(q(5)), 700),
        Err(Error::AlreadyVoted)
    );
    assert_eq!(
        governance::vote(&mut state, p(20), q(1), false, Some(q(9)), 800),
        Err(Error::AlreadyVoted)
    );
    assert_eq!(Error::AlreadyVoted.kind(), ErrorKind::InvalidState);
    let proposal = governance::get_proposal_details(&state, &q(1)).unwrap();
    assert_eq!(proposal.votes_for, q(5));
    assert_eq!(proposal.votes_against, q(0));
    assert_eq!(proposal.voters_for, vec![p(20)]);
    assert_eq!(proposal.voters_against, vec![]);
    assert!(governance::has_voted(&state, &q(1), &p(20)));
    assert!(!governance::has_voted(&state, &q(1), &p(21)));
    assert!(!governance::has_voted(&state, &q(2), &p(20)));
}

#[test]
fn votes_add_their_weight_to_their_side() {
    let mut state = gov_with_proposal();
    assert_eq!(governance::vote(&mut state, p(20), q(1), true, Some(q(5)), 600), Ok(()));
    assert_eq!(governance::vote(&mut state, p(21), q(1), false, Some(q(7)), 600), Ok(()));
    assert_eq!(governance::vote(&mut state, p(22), q(1), true, Some(q(0)), 600), Ok(()));
    assert_eq!(governance::vote(&mut state, p(23), q(1), false, Some(q(1)), 600), Ok(()));
    let proposal = governance::get_proposal_details(&state, &q(1)).unwrap();
    assert_eq!(proposal.votes_for, q(5));
    assert_eq!(proposal.votes_against, q(8));
    assert_eq!(proposal.voters_for, vec![p(20), p(22)]);
    assert_eq!(proposal.voters_against, vec![p(21), p(23)]);
    let record = state.voters.get(&q(1)).unwrap().get(&p(21)).unwrap();
    assert!(record.voted);
    assert!(!record.vote);
    assert_eq!(record.weight, q(7));
    let record = state.voters.get(&q(1)).unwrap().get(&p(20)).unwrap();
    assert!(record.vote);
    assert_eq!(record.weight, q(5));
}

#[test]
fn a_voter_may_vote_on_each_proposal_once() {
    let mut state = gov_with_proposal();
    governance::create_proposal(&mut state, p(9), claim(1), Some(bought(150)), 500).unwrap();
    assert_eq!(governance::vote(&mut state, p(20), q(1), true, Some(q(5)), 600), Ok(()));
    assert_eq!(governance::vote(&mut state, p(20), q(2), false, Some(q(5)), 600), Ok(()));
    assert_eq!(governance::vote(&mut state, p(20), q(2), false, Some(q(5)), 600), Err(Error::AlreadyVoted));
    assert_eq!(governance::get_proposal_details(&state, &q(2)).unwrap().votes_against, q(5));
    assert_eq!(governance::get_proposal_details(&state, &q(1)).unwrap().votes_against, q(0));
}

#[test]
fn vote_refusals_come_in_order_and_change_nothing() {
    let mut state = gov_with_proposal();
    assert_eq!(governance::vote(&mut state, p(20), q(1), true, None, 600), Err(Error::WeightQueryFailed));
    assert_eq!(governance::vote(&mut state, p(20), q(2), true, None, 600), Err(Error::WeightQueryFailed));
    assert_eq!(governance::vote(&mut state, p(20), q(2), true, Some(q(5)), 600), Err(Error::ProposalNotFound));
    make_pending(&mut state, 1_000);
    assert_eq!(governance::vote(&mut state, p(20), q(1), true, Some(q(5)), 1_000), Err(Error::VotingClosed));
    assert_eq!(governance::vote(&mut state, p(20), q(1), true, Some(q(5)), 1_001), Err(Error::VotingClosed));
    let proposal = governance::get_proposal_details(&state, &q(1)).unwrap();
    assert_eq!(proposal.votes_for, q(0));
    assert_eq!(proposal.voters_for, vec![]);
    assert!(state.voters.get(&q(1)).is_none());
    // before the deadline a pending proposal takes votes
    assert_eq!(governance::vote(&mut state, p(20), q(1), true, Some(q(5)), 999), Ok(()));
    // a vote cast comes before the deadline in the order of refusals
    assert_eq!(governance::vote(&mut state, p(20), q(1), true, Some(q(5)), 1_001), Err(Error::AlreadyVoted));
    state.bqbtc_contract = None;
    assert_eq!(governance::vote(&mut state, p(21), q(1), true, Some(q(5)), 999), Err(Error::LedgerNotSet));
    assert_eq!(governance::vote(&mut state, p(20), q(1), true, None, 999), Err(Error::LedgerNotSet));
}

#[test]
fn a_submitted_proposal_takes_votes_at_any_time() {
    let mut state = gov_with_proposal();
    assert_eq!(governance::vote(&mut state, p(20), q(1), true, Some(q(5)), u64::MAX), Ok(()));
}

#[test]
fn execute_approves_on_a_majority_in_favour() {
    let mut state = gov_with_proposal();
    governance::vote(&mut state, p(20), q(1), true, Some(q(5)), 600).unwrap();
    governance::vote(&mut state, p(21), q(1), false, Some(q(4)), 600).unwrap();
    governance::vote(&mut state, p(22), q(1), true, Some(q(1)), 600).unwrap();
    make_pending(&mut state, 1_000);
    let order = governance::execute_proposal(&mut state, p(ADMIN), q(1), 1_001).unwrap();
    assert_eq!(order.ledger, p(LEDGER));
    assert_eq!(order.amount, Nat::from(100_000_000_000_000_000_000u128));
    assert_eq!(order.recipients, vec![p(20), p(22)]);
    let proposal = governance::get_proposal_details(&state, &q(1)).unwrap();
    assert_eq!(proposal.status, ProposalStatus::Approved);
    assert!(proposal.executed);
    assert_eq!(proposal.timeleft, q(0));
    assert_eq!(proposal.votes_for, q(6));
    // a second tally does nothing and rewards nobody
    let order = governance::execute_proposal(&mut state, p(ADMIN), q(1), 2_000).unwrap();
    assert_eq!(order.recipients, vec![]);
    assert_eq!(governance::get_proposal_details(&state, &q(1)).unwrap().status, ProposalStatus::Approved);
}

#[test]
fn execute_rejects_on_a_tie_or_a_majority_against() {
    let mut state = gov_with_proposal();
    governance::vote(&mut state, p(20), q(1), true, Some(q(5)), 600).unwrap();
    governance::vote(&mut state, p(21), q(1), false, Some(q(5)), 600).unwrap();
    make_pending(&mut state, 1_000);
    let order = governance::execute_proposal(&mut state, p(ADMIN), q(1), 1_001).unwrap();
    assert_eq!(order.recipients, vec![p(21)]);
    let proposal = governance::get_proposal_details(&state, &q(1)).unwrap();
    assert_eq!(proposal.status, ProposalStatus::Rejected);
    assert!(proposal.executed);
}

#[test]
fn execute_leaves_proposals_that_are_not_due() {
    let mut state = gov_with_proposal();
    governance::vote(&mut state, p(20), q(1), true, Some(q(5)), 600).unwrap();
    // submitted, not pending
    let order = governance::execute_proposal(&mut state, p(ADMIN), q(1), 5_000).unwrap();
    assert_eq!(order.recipients, vec![]);
    assert_eq!(governance::get_proposal_details(&state, &q(1)).unwrap().status, ProposalStatus::Submitted);
    // pending, at the deadline
    make_pending(&mut state, 1_000);
    let order = governance::execute_proposal(&mut state, p(ADMIN), q(1), 1_000).unwrap();
    assert_eq!(order.recipients, vec![]);
    let proposal = governance::get_proposal_details(&state, &q(1)).unwrap();
    assert_eq!(proposal.status, ProposalStatus::Pending);
    assert!(!proposal.executed);
}

#[test]
fn execute_refusals() {
    let mut state = gov_with_proposal();
    make_pending(&mut state, 1_000);
    assert_eq!(governance::execute_proposal(&mut state, p(9), q(1), 2_000).err(), Some(Error::NotAdmin));
    assert_eq!(governance::execute_proposal(&mut state, p(ADMIN), q(2), 2_000).err(), Some(Error::ProposalNotFound));
    state.bqbtc_contract = None;
    assert_eq!(governance::execute_proposal(&mut state, p(ADMIN), q(1), 2_000).err(), Some(Error::LedgerNotSet));
    assert_eq!(governance::execute_proposal(&mut state, p(9), q(1), 2_000).err(), Some(Error::NotAdmin));
    assert_eq!(governance::get_proposal_details(&state, &q(1)).unwrap().status, ProposalStatus::Pending);
}

#[test]
fn a_revoked_admin_flag_counts_as_no_admin() {
    let mut state = gov();
    state.is_admin.insert(p(ADMIN), false);
    assert!(!governance::is_admin(&state, &p(ADMIN)));
    assert_eq!(governance::add_admin(&mut state, p(ADMIN), p(6)), Err(Error::NotAdmin));
}

#[test]
fn add_admin_is_for_admins() {
    let mut state = gov();
    assert_eq!(governance::add_admin(&mut state, p(9), p(9)), Err(Error::NotAdmin));
    assert!(!governance::is_admin(&state, &p(9)));
    assert_eq!(governance::add_admin(&mut state, p(ADMIN), p(9)), Ok(()));
    assert!(governance::is_admin(&state, &p(9)));
    assert_eq!(governance::add_admin(&mut state, p(9), p(10)), Ok(()));
    assert!(governance::is_admin(&state, &p(10)));
    assert!(governance::is_admin(&state, &p(ADMIN)));
}

#[test]
fn update_proposal_to_claimed_is_the_last_step() {
    let mut state = gov_with_proposal();
    assert_eq!(governance::update_proposal_to_claimed(&mut state, q(1)), Ok(()));
    let proposal = governance::get_proposal_details(&state, &q(1)).unwrap();
    assert_eq!(proposal.status, ProposalStatus::Claimed);
    assert_eq!(proposal.proposal_param.claim_amount, q(100));
    assert_eq!(governance::update_proposal_to_claimed(&mut state, q(2)), Err(Error::ProposalNotFound));
}

#[test]
fn settings_can_be_changed() {
    let mut state = gov();
    assert_eq!(governance::set_voting_duration(&mut state, 77), Ok(()));
    assert_eq!(state.voting_duration, 77);
    assert_eq!(governance::update_reward_amount(&mut state, q(3)), Ok(()));
    assert_eq!(state.reward_amount, q(3));
}

#[test]
fn active_and_past_proposals_go_by_deadline() {
    let mut state = gov();
    for _ in 0..4 {
        governance::create_proposal(&mut state, p(9), claim(1), Some(bought(150)), 500).unwrap();
    }
    // 1: no deadline; 2: deadline ahead; 3: deadline ahead but tallied; 4: deadline gone
    state.proposals.get_mut(&q(2)).unwrap().deadline = q(2_000);
    state.proposals.get_mut(&q(3)).unwrap().deadline = q(2_000);
    state.proposals.get_mut(&q(3)).unwrap().executed = true;
    state.proposals.get_mut(&q(4)).unwrap().deadline = q(1_000);
    let active = governance::get_active_proposals(&state, 1_000).unwrap();
    assert_eq!(active.iter().map(|x| x.id.clone()).collect::<Vec<_>>(), vec![q(1), q(2)]);
    let past = governance::get_past_proposals(&state, 1_000).unwrap();
    assert_eq!(past.iter().map(|x| x.id.clone()).collect::<Vec<_>>(), vec![q(1), q(2), q(3)]);
    let active = governance::get_active_proposals(&state, 2_000).unwrap();
    assert_eq!(active.iter().map(|x| x.id.clone()).collect::<Vec<_>>(), vec![q(1)]);
    let past = governance::get_past_proposals(&state, 999).unwrap();
    assert_eq!(past.len(), 4);
    assert_eq!(governance::get_all_proposals(&state).unwrap().len(), 4);
    // an executed proposal without a deadline still counts as active
    state.proposals.get_mut(&q(1)).unwrap().executed = true;
    assert_eq!(governance::get_active_proposals(&state, 5_000).unwrap().len(), 1);
}
