use subnets::consensus::{
    supermajority_decision, Config, Error, Event, LedgerOp, Pallet as ConsensusPallet,
};
use std::collections::BTreeMap;
use subnets::hashing::account_id_digest;

const REWARD: u128 = 50;
const PENALTY: u128 = 20;
const WINDOW: u64 = 10;
const SUBMITTER: u64 = 1;

fn engine() -> ConsensusPallet {
    ConsensusPallet::new(Config {
        validation_reward: REWARD,
        penalty_amount: PENALTY,
        validation_window: WINDOW,
    })
}

fn metrics() -> Vec<(String, u64)> {
    vec![("Accuracy".to_string(), 95.0f64.to_bits()), ("Latency".to_string(), 100.0f64.to_bits())]
}

#[test]
fn supermajority_arithmetic() {
    assert_eq!(supermajority_decision(3, 0), Some(true));
    assert_eq!(supermajority_decision(2, 1), None);
    assert_eq!(supermajority_decision(5, 1), Some(true));
    assert_eq!(supermajority_decision(0, 1), Some(false));
    assert_eq!(supermajority_decision(1, 1), None);
    assert_eq!(supermajority_decision(0, 0), None);
    assert_eq!(supermajority_decision(u32::MAX, u32::MAX), None);
    assert_eq!(supermajority_decision(u32::MAX, 0), Some(true));
}

#[test]
fn submit_drill_test_opens_an_empty_round() {
    let mut pallet = engine();
    let id = pallet.submit_drill_test(SUBMITTER, 1, metrics(), 100);
    assert_eq!(id, account_id_digest(SUBMITTER));
    let stored = pallet.drill_test_results(SUBMITTER).unwrap();
    assert_eq!(stored.task_id, 1);
    assert!(stored.success);
    assert_eq!(stored.performance_metrics, metrics());
    let round = pallet.validation_votes(id).unwrap();
    assert!(round.validators.is_empty());
    assert_eq!((round.approval_count, round.rejection_count), (0, 0));
    assert_eq!(round.final_decision, None);
    assert_eq!(round.time_started, 100);
    assert_eq!(pallet.events(), &vec![Event::DrillTestSubmitted(SUBMITTER, 1)]);
}

#[test]
fn resubmission_replaces_result_and_round() {
    let mut pallet = engine();
    let id = pallet.submit_drill_test(SUBMITTER, 1, metrics(), 100);
    pallet.cast_validation_vote(10, id, false, 101).unwrap();
    let again = pallet.submit_drill_test(SUBMITTER, 2, vec![], 200);
    assert_eq!(again, id);
    assert_eq!(pallet.drill_test_results(SUBMITTER).unwrap().task_id, 2);
    let round = pallet.validation_votes(id).unwrap();
    assert!(round.validators.is_empty());
    assert_eq!(round.time_started, 200);
}

#[test]
fn first_vote_decides_and_rewards() {
    let mut pallet = engine();
    let id = pallet.submit_drill_test(SUBMITTER, 1, metrics(), 0);
    // One vote: threshold 2 * 1 / 3 = 0, and 1 > 0.
    let ops = pallet.cast_validation_vote(20, id, true, 3).unwrap();
    assert_eq!(ops, vec![LedgerOp::DepositCreating(20, REWARD)]);
    let round = pallet.validation_votes(id).unwrap();
    assert_eq!(round.final_decision, Some(true));
    assert_eq!((round.approval_count, round.rejection_count), (1, 0));
    assert_eq!(
        pallet.events(),
        &vec![
            Event::DrillTestSubmitted(SUBMITTER, 1),
            Event::RewardDistributed(20, REWARD),
            Event::DrillTestValidated(id, true),
            Event::ValidationVoteCast(id, 20, true),
        ]
    );
}

#[test]
fn lone_dissent_rejects_and_penalises() {
    let mut pallet = engine();
    let id = pallet.submit_drill_test(SUBMITTER, 1, metrics(), 0);
    let ops = pallet.cast_validation_vote(9, id, false, 0).unwrap();
    assert_eq!(ops, vec![LedgerOp::Withdraw(9, PENALTY)]);
    let round = pallet.validation_votes(id).unwrap();
    assert_eq!(round.final_decision, Some(false));
    assert_eq!((round.approval_count, round.rejection_count), (0, 1));
    assert_eq!(
        &pallet.events()[1..],
        &[
            Event::ValidatorPenalized(9, PENALTY),
            Event::DrillTestValidated(id, false),
            Event::ValidationVoteCast(id, 9, false),
        ]
    );
}

fn three_votes() -> BTreeMap<u64, bool> {
    let mut votes = BTreeMap::new();
    votes.insert(13, false);
    votes.insert(11, true);
    votes.insert(12, true);
    votes
}

#[test]
fn approval_with_three_voters_rewards_each() {
    let mut pallet = engine();
    let id = account_id_digest(SUBMITTER);
    let ops = pallet.finalize_validation(&three_votes(), id, true);
    assert_eq!(
        ops,
        vec![
            LedgerOp::DepositCreating(11, REWARD),
            LedgerOp::DepositCreating(12, REWARD),
            LedgerOp::DepositCreating(13, REWARD),
        ]
    );
    assert_eq!(
        pallet.events(),
        &vec![
            Event::RewardDistributed(11, REWARD),
            Event::RewardDistributed(12, REWARD),
            Event::RewardDistributed(13, REWARD),
            Event::DrillTestValidated(id, true),
        ]
    );
}

#[test]
fn rejection_penalises_only_voters_against() {
    let mut pallet = engine();
    let id = account_id_digest(SUBMITTER);
    let ops = pallet.finalize_validation(&three_votes(), id, false);
    assert_eq!(ops, vec![LedgerOp::Withdraw(13, PENALTY)]);
    assert_eq!(
        pallet.events(),
        &vec![Event::ValidatorPenalized(13, PENALTY), Event::DrillTestValidated(id, false)]
    );
}

#[test]
fn vote_after_window_fails_and_changes_nothing() {
    let mut pallet = engine();
    let id = pallet.submit_drill_test(SUBMITTER, 1, metrics(), 100);
    assert_eq!(pallet.cast_validation_vote(20, id, false, 100 + WINDOW + 1), Err(Error::ValidationWindowClosed));
    let round = pallet.validation_votes(id).unwrap();
    assert_eq!((round.approval_count, round.rejection_count), (0, 0));
    assert!(round.validators.is_empty());
    assert_eq!(pallet.validator_reputation(20), None);
    assert_eq!(pallet.events().len(), 1);
    // At the last moment of the window the vote counts.
    assert!(pallet.cast_validation_vote(20, id, false, 100 + WINDOW).is_ok());
}

#[test]
fn votes_on_unknown_or_decided_rounds_fail() {
    let mut pallet = engine();
    let id = account_id_digest(SUBMITTER);
    assert_eq!(pallet.cast_validation_vote(20, id, true, 0), Err(Error::ValidationNotFound));
    pallet.submit_drill_test(SUBMITTER, 1, metrics(), 0);
    assert!(pallet.cast_validation_vote(20, id, true, 0).is_ok());
    assert_eq!(pallet.validation_votes(id).unwrap().final_decision, Some(true));
    assert_eq!(pallet.cast_validation_vote(21, id, false, 0), Err(Error::ValidationNotFound));
    assert_eq!(pallet.validation_votes(id).unwrap().validators.len(), 1);
}

#[test]
fn reputation_moves_with_vote_polarity() {
    let mut pallet = engine();
    let a = pallet.submit_drill_test(1, 1, metrics(), 0);
    pallet.cast_validation_vote(50, a, false, 0).unwrap();
    assert_eq!(pallet.validator_reputation(50), Some(0));
    let b = pallet.submit_drill_test(2, 1, metrics(), 0);
    pallet.cast_validation_vote(50, b, true, 0).unwrap();
    let c = pallet.submit_drill_test(3, 1, metrics(), 0);
    pallet.cast_validation_vote(50, c, true, 0).unwrap();
    assert_eq!(pallet.validator_reputation(50), Some(2));
    let d = pallet.submit_drill_test(4, 1, metrics(), 0);
    pallet.cast_validation_vote(50, d, false, 0).unwrap();
    assert_eq!(pallet.validator_reputation(50), Some(1));
    assert_eq!(pallet.validator_reputation(51), None);
}

#[test]
fn config_is_kept() {
    let pallet = engine();
    assert_eq!(pallet.config().validation_reward, REWARD);
    assert_eq!(pallet.config().penalty_amount, PENALTY);
    assert_eq!(pallet.config().validation_window, WINDOW);
}
