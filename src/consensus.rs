//! Validation engine: drill-test submissions open voting rounds, validators
//! vote within a window, a supermajority settles each round, and settlement
//! pays or penalises the voters.
use vstd::prelude::*;

use std::collections::BTreeMap;
use std::string::String;
use vstd::std_specs::cmp::OrdSpec;
use vstd::std_specs::iter::IteratorSpec;

use crate::hashing::{account_digest, account_id_digest, Digest};
use crate::{AccountId, Balance};

verus! {

/// The parameters of the engine.
#[derive(Clone, Copy, Debug, PartialEq, Eq, Structural)]
pub struct Config {
    /// Paid to every voter of a round that is approved.
    pub validation_reward: Balance,
    /// Taken from every voter who voted against approval in a round that is
    /// rejected.
    pub penalty_amount: Balance,
    /// How long after a round opens votes are accepted.
    pub validation_window: u64,
}

/// A submitted drill test. Each metric value is a binary64 float carried as
/// its bit pattern (`f64::to_bits`).
#[derive(Clone, Debug, PartialEq, Eq)]
pub struct DrillTestResult {
    pub task_id: u64,
    /// Provisional: set on submission, before any validation.
    pub success: bool,
    pub performance_metrics: Vec<(String, u64)>,
}

pub struct DrillTestRecord {
    pub task_id: u64,
    pub success: bool,
    pub performance_metrics: Seq<(Seq<char>, u64)>,
}

impl View for DrillTestResult {
    type V = DrillTestRecord;

    open spec fn view(&self) -> DrillTestRecord {
        DrillTestRecord {
            task_id: self.task_id,
            success: self.success,
            performance_metrics: self.performance_metrics@.map_values(
                |m: (String, u64)| (m.0@, m.1),
            ),
        }
    }
}

/// A validation round: the vote of each validator, the tally of both sides,
/// the decision once there is one, and when the round opened.
#[derive(Debug)]
pub struct ValidationVote {
    pub validators: BTreeMap<AccountId, bool>,
    pub approval_count: u32,
    pub rejection_count: u32,
    pub final_decision: Option<bool>,
    pub time_started: u64,
}

pub struct RoundView {
    pub votes: Map<AccountId, bool>,
    pub approval_count: u32,
    pub rejection_count: u32,
    pub final_decision: Option<bool>,
    pub time_started: u64,
}

impl View for ValidationVote {
    type V = RoundView;

    open spec fn view(&self) -> RoundView {
        RoundView {
            votes: self.validators@,
            approval_count: self.approval_count,
            rejection_count: self.rejection_count,
            final_decision: self.final_decision,
            time_started: self.time_started,
        }
    }
}

/// A transfer that settlement asks of the ledger.
#[derive(Clone, Copy, Debug, PartialEq, Eq, Structural)]
pub enum LedgerOp {
    /// Credit the account, creating it if need be; this always succeeds.
    DepositCreating(AccountId, Balance),
    /// Withdraw from the account's reserve, keeping it alive; a failure is
    /// ignored.
    Withdraw(AccountId, Balance),
}

/// Notifications of the engine.
#[derive(Debug, PartialEq, Eq)]
pub enum Event {
    DrillTestSubmitted(AccountId, u64),
    ValidationVoteCast(Digest, AccountId, bool),
    DrillTestValidated(Digest, bool),
    RewardDistributed(AccountId, Balance),
    ValidatorPenalized(AccountId, Balance),
}

#[derive(Clone, Copy, Debug, PartialEq, Eq, Structural)]
pub enum Error {
    /// No round has that id, or its decision is already made.
    ValidationNotFound,
    /// The round's voting window has passed.
    ValidationWindowClosed,
    /// A tally would pass the largest `u32`.
    VoteCountOverflow,
}

/// What the engine holds, as mathematical values.
pub struct ConsensusState {
    pub config: Config,
    /// The latest drill test of each submitter.
    pub drill_test_results: Map<AccountId, DrillTestRecord>,
    pub rounds: Map<Digest, RoundView>,
    pub reputation: Map<AccountId, u32>,
    /// Every notification so far, oldest first.
    pub events: Seq<Event>,
}

/// The accounts that voted to approve.
pub open spec fn approvers(votes: Map<AccountId, bool>) -> Set<AccountId> {
    votes.dom().filter(|a: AccountId| votes[a])
}

/// The accounts that voted not to approve.
pub open spec fn dissenters(votes: Map<AccountId, bool>) -> Set<AccountId> {
    votes.dom().filter(|a: AccountId| !votes[a])
}

/// A round's tallies count its votes, each once.
pub open spec fn tallied(r: RoundView) -> bool {
    &&& r.votes.dom().finite()
    &&& r.approval_count == approvers(r.votes).len()
    &&& r.rejection_count == dissenters(r.votes).len()
}

/// The supermajority rule: with `t` votes in all, a side wins with more than
/// `2t/3` (rounded down) of them; otherwise there is no decision yet.
pub open spec fn supermajority(approvals: int, rejections: int) -> Option<bool> {
    let threshold = (approvals + rejections) * 2 / 3;
    if approvals > threshold {
        Some(true)
    } else if rejections > threshold {
        Some(false)
    } else {
        None
    }
}

/// A score after one vote: one up for an approval, without passing the largest
/// `u32`; one down otherwise, without going below 0.
pub open spec fn reputation_after(score: u32, accurate: bool) -> u32 {
    if accurate {
        if score == u32::MAX {
            score
        } else {
            (score + 1) as u32
        }
    } else if score == 0 {
        0
    } else {
        (score - 1) as u32
    }
}

/// The score of `who`: 0 before its first vote.
pub open spec fn score_of(reputation: Map<AccountId, u32>, who: AccountId) -> u32 {
    if reputation.contains_key(who) {
        reputation[who]
    } else {
        0
    }
}

/// The voting window of a round opened at `started` has passed at `now`.
pub open spec fn window_closed(now: u64, started: u64, window: u64) -> bool {
    now - started > window
}

/// `entries` lists the votes of `votes`, each once, by increasing account.
pub open spec fn in_key_order(entries: Seq<(AccountId, bool)>, votes: Map<AccountId, bool>) -> bool {
    &&& forall|i: int, j: int| 0 <= i < j < entries.len() ==> entries[i].0 < entries[j].0
    &&& forall|i: int|
        0 <= i < entries.len() ==> votes.contains_key(#[trigger] entries[i].0) && votes[entries[i].0]
            == entries[i].1
    &&& forall|a: AccountId|
        #[trigger] votes.contains_key(a) ==> exists|i: int|
            0 <= i < entries.len() && #[trigger] entries[i].0 == a
}

/// The transfers of settling a round with these votes, in this order: on
/// approval a reward for every voter; on rejection a penalty for every voter
/// who voted not to approve.
pub open spec fn settlement_of(entries: Seq<(AccountId, bool)>, approved: bool, config: Config) -> Seq<
    LedgerOp,
>
    decreases entries.len(),
{
    if entries.len() == 0 {
        Seq::empty()
    } else {
        let rest = settlement_of(entries.drop_last(), approved, config);
        let (a, vote) = entries.last();
        if approved {
            rest.push(LedgerOp::DepositCreating(a, config.validation_reward))
        } else if !vote {
            rest.push(LedgerOp::Withdraw(a, config.penalty_amount))
        } else {
            rest
        }
    }
}

/// `ops` settles a round with `votes`, taken by increasing account.
pub open spec fn settles(
    votes: Map<AccountId, bool>,
    approved: bool,
    config: Config,
    ops: Seq<LedgerOp>,
) -> bool {
    exists|entries: Seq<(AccountId, bool)>|
        in_key_order(entries, votes) && ops == settlement_of(entries, approved, config)
}

/// The notification that goes with a transfer.
pub open spec fn notice_of(op: LedgerOp) -> Event {
    match op {
        LedgerOp::DepositCreating(a, amount) => Event::RewardDistributed(a, amount),
        LedgerOp::Withdraw(a, amount) => Event::ValidatorPenalized(a, amount),
    }
}

/// The notifications that go with the transfers `ops`.
pub open spec fn notices_of(ops: Seq<LedgerOp>) -> Seq<Event> {
    ops.map_values(|op: LedgerOp| notice_of(op))
}

/// The notifications of settling round `id` with transfers `ops`.
pub open spec fn settlement_notices(ops: Seq<LedgerOp>, id: Digest, approved: bool) -> Seq<Event> {
    notices_of(ops).push(Event::DrillTestValidated(id, approved))
}

spec fn keys_of(items: Seq<(&AccountId, &bool)>) -> Seq<AccountId> {
    items.map_values(|kv: (&AccountId, &bool)| *kv.0)
}

/// A map's listing, as its iterator yields it, is in key order.
proof fn lemma_listing_in_key_order(votes: &BTreeMap<AccountId, bool>, all: Seq<(&AccountId, &bool)>)
    requires
        all == vstd::std_specs::btree::spec_btree_map_iter(votes).remaining(),
        vstd::std_specs::btree::increasing_seq(keys_of(all)),
    ensures
        in_key_order(entries_of(all), votes@),
{
    let entries = entries_of(all);
    let keys = keys_of(all);
    assert forall|i: int, j: int| 0 <= i < j < entries.len() implies entries[i].0 < entries[j].0 by {
        assert(keys[i].cmp_spec(&keys[j]) is Less);
    }
    assert forall|i: int| 0 <= i < entries.len() implies votes@.contains_key(
        #[trigger] entries[i].0,
    ) && votes@[entries[i].0] == entries[i].1 by {
        assert(votes@.contains_key(*all[i].0));
    }
    assert forall|a: AccountId| #[trigger] votes@.contains_key(a) implies exists|i: int|
        0 <= i < entries.len() && #[trigger] entries[i].0 == a by {
        assert(all.contains((&a, &votes@[a])));
        let i = choose|i: int| 0 <= i < all.len() && all[i] == (&a, &votes@[a]);
        assert(entries[i].0 == a);
    }
}

spec fn entries_of(items: Seq<(&AccountId, &bool)>) -> Seq<(AccountId, bool)> {
    items.map_values(|kv: (&AccountId, &bool)| (*kv.0, *kv.1))
}

/// Round `id` of `s` takes votes.
pub open spec fn is_open(s: ConsensusState, id: Digest) -> bool {
    s.rounds.contains_key(id) && s.rounds[id].final_decision is None
}

/// The votes of round `id` once `who` has voted `approve`.
pub open spec fn votes_after(s: ConsensusState, id: Digest, who: AccountId, approve: bool) -> Map<
    AccountId,
    bool,
> {
    s.rounds[id].votes.insert(who, approve)
}

/// `post` and `ops` are `pre` and the ledger work after `who` voted `approve`
/// in the open round `id`.
pub open spec fn vote_recorded(
    pre: ConsensusState,
    id: Digest,
    who: AccountId,
    approve: bool,
    ops: Seq<LedgerOp>,
    post: ConsensusState,
) -> bool {
    let round = pre.rounds[id];
    let votes = votes_after(pre, id, who, approve);
    let approvals = approvers(votes).len();
    let rejections = dissenters(votes).len();
    let decision = supermajority(approvals as int, rejections as int);
    &&& post.rounds == pre.rounds.insert(
        id,
        RoundView {
            votes,
            approval_count: approvals as u32,
            rejection_count: rejections as u32,
            final_decision: decision,
            time_started: round.time_started,
        },
    )
    &&& post.reputation == pre.reputation.insert(
        who,
        reputation_after(score_of(pre.reputation, who), approve),
    )
    &&& post.config == pre.config
    &&& post.drill_test_results == pre.drill_test_results
    &&& match decision {
        Some(approved) => {
            &&& settles(votes, approved, pre.config, ops)
            &&& post.events == pre.events + settlement_notices(ops, id, approved).push(
                Event::ValidationVoteCast(id, who, approve),
            )
        },
        None => {
            &&& ops.len() == 0
            &&& post.events == pre.events.push(Event::ValidationVoteCast(id, who, approve))
        },
    }
}

proof fn lemma_tally_insert(m: Map<AccountId, bool>, k: AccountId, v: bool)
    requires
        m.dom().finite(),
    ensures
        m.insert(k, v).dom().finite(),
        approvers(m).finite(),
        dissenters(m).finite(),
        approvers(m.insert(k, v)).len() == approvers(m).len() - (if m.contains_key(k) && m[k] {
            1int
        } else {
            0
        }) + (if v {
            1int
        } else {
            0
        }),
        dissenters(m.insert(k, v)).len() == dissenters(m).len() - (if m.contains_key(k) && !m[k] {
            1int
        } else {
            0
        }) + (if !v {
            1int
        } else {
            0
        }),
{
    let m2 = m.insert(k, v);
    m.dom().lemma_len_filter(|a: AccountId| m[a]);
    m.dom().lemma_len_filter(|a: AccountId| !m[a]);
    let yes = approvers(m).remove(k);
    let no = dissenters(m).remove(k);
    if v {
        assert(approvers(m2) =~= yes.insert(k));
        assert(dissenters(m2) =~= no);
    } else {
        assert(approvers(m2) =~= yes);
        assert(dissenters(m2) =~= no.insert(k));
    }
}

proof fn lemma_empty_tally(time_started: u64)
    ensures
        tallied(
            RoundView {
                votes: Map::empty(),
                approval_count: 0,
                rejection_count: 0,
                final_decision: None,
                time_started,
            },
        ),
{
    assert(approvers(Map::empty()) =~= Set::empty());
    assert(dissenters(Map::empty()) =~= Set::empty());
}

/// The tallies of a round add up to its number of voters: each vote is
/// counted once, on one side.
pub proof fn lemma_tallies_count_voters(r: RoundView)
    requires
        tallied(r),
    ensures
        r.approval_count + r.rejection_count == r.votes.dom().len(),
{
    let m = r.votes;
    m.dom().lemma_len_filter(|a: AccountId| m[a]);
    m.dom().lemma_len_filter(|a: AccountId| !m[a]);
    assert(approvers(m).disjoint(dissenters(m)));
    assert(approvers(m) + dissenters(m) =~= m.dom());
    vstd::set_lib::lemma_set_disjoint_lens(approvers(m), dissenters(m));
}

proof fn lemma_rewards_follow_entries(entries: Seq<(AccountId, bool)>, config: Config)
    ensures
        settlement_of(entries, true, config) == entries.map_values(
            |e: (AccountId, bool)| LedgerOp::DepositCreating(e.0, config.validation_reward),
        ),
    decreases entries.len(),
{
    if entries.len() > 0 {
        lemma_rewards_follow_entries(entries.drop_last(), config);
        assert(settlement_of(entries, true, config) =~= entries.map_values(
            |e: (AccountId, bool)| LedgerOp::DepositCreating(e.0, config.validation_reward),
        ));
    } else {
        assert(settlement_of(entries, true, config) =~= entries.map_values(
            |e: (AccountId, bool)| LedgerOp::DepositCreating(e.0, config.validation_reward),
        ));
    }
}

/// Settling an approved round credits every voter exactly once, each with
/// the validation reward, and does nothing else; one reward notification
/// goes with each credit.
pub proof fn lemma_approval_rewards_every_voter(
    votes: Map<AccountId, bool>,
    config: Config,
    ops: Seq<LedgerOp>,
)
    requires
        votes.dom().finite(),
        settles(votes, true, config, ops),
    ensures
        ops.len() == votes.dom().len(),
        forall|i: int|
            0 <= i < ops.len() ==> (#[trigger] ops[i] matches LedgerOp::DepositCreating(a, amount)
                && amount == config.validation_reward && votes.contains_key(a)),
        notices_of(ops).len() == votes.dom().len(),
        forall|i: int|
            0 <= i < ops.len() ==> (#[trigger] notices_of(ops)[i] matches Event::RewardDistributed(
                a,
                amount,
            ) && amount == config.validation_reward && votes.contains_key(a)),
        forall|i: int, j: int|
            0 <= i < j < ops.len() ==> #[trigger] ops[i] != #[trigger] ops[j],
        forall|a: AccountId|
            #[trigger] votes.contains_key(a) ==> ops.contains(
                LedgerOp::DepositCreating(a, config.validation_reward),
            ),
{
    let entries = choose|entries: Seq<(AccountId, bool)>|
        in_key_order(entries, votes) && ops == settlement_of(entries, true, config);
    lemma_rewards_follow_entries(entries, config);
    let keys = entries.map_values(|e: (AccountId, bool)| e.0);
    assert(keys.no_duplicates()) by {
        assert forall|i: int, j: int| 0 <= i < keys.len() && 0 <= j < keys.len() && i != j implies keys[i]
            != keys[j] by {
            if i < j {
                assert(entries[i].0 < entries[j].0);
            } else {
                assert(entries[j].0 < entries[i].0);
            }
        }
    }
    keys.unique_seq_to_set();
    assert(keys.to_set() =~= votes.dom()) by {
        assert forall|a: AccountId| votes.contains_key(a) implies keys.contains(a) by {
            let i = choose|i: int| 0 <= i < entries.len() && #[trigger] entries[i].0 == a;
            assert(keys[i] == a);
        }
        assert forall|a: AccountId| keys.contains(a) implies votes.contains_key(a) by {
            let i = choose|i: int| 0 <= i < keys.len() && keys[i] == a;
            assert(votes.contains_key(entries[i].0));
        }
    }
    assert forall|i: int, j: int| 0 <= i < j < ops.len() implies #[trigger] ops[i]
        != #[trigger] ops[j] by {
        assert(entries[i].0 < entries[j].0);
    }
    assert forall|a: AccountId| #[trigger] votes.contains_key(a) implies ops.contains(
        LedgerOp::DepositCreating(a, config.validation_reward),
    ) by {
        let i = choose|i: int| 0 <= i < entries.len() && #[trigger] entries[i].0 == a;
        assert(ops[i] == LedgerOp::DepositCreating(a, config.validation_reward));
    }
}

/// The supermajority rule on a round's tallies: `Some(true)` to approve,
/// `Some(false)` to reject, `None` while neither side has more than two
/// thirds of the votes.
pub fn supermajority_decision(approval_count: u32, rejection_count: u32) -> (r: Option<bool>)
    ensures
        r == supermajority(approval_count as int, rejection_count as int),
{
    let total_votes: u64 = approval_count as u64 + rejection_count as u64;
    let supermajority_threshold: u64 = (total_votes * 2) / 3;
    if approval_count as u64 > supermajority_threshold {
        Some(true)
    } else if rejection_count as u64 > supermajority_threshold {
        Some(false)
    } else {
        None
    }
}

/// The engine.
pub struct Pallet {
    config: Config,
    drill_test_results: BTreeMap<AccountId, DrillTestResult>,
    validation_votes: BTreeMap<Digest, ValidationVote>,
    validator_reputation: BTreeMap<AccountId, u32>,
    events: Vec<Event>,
}

impl View for Pallet {
    type V = ConsensusState;

    closed spec fn view(&self) -> ConsensusState {
        ConsensusState {
            config: self.config,
            drill_test_results: self.drill_test_results@.map_values(|d: DrillTestResult| d@),
            rounds: self.validation_votes@.map_values(|v: ValidationVote| v@),
            reputation: self.validator_reputation@,
            events: self.events@,
        }
    }
}

impl Pallet {
    /// Every round's tallies count its votes.
    pub open spec fn wf(&self) -> bool {
        forall|id: Digest| #[trigger] self@.rounds.contains_key(id) ==> tallied(self@.rounds[id])
    }

    /// An engine with these parameters and nothing submitted.
    pub fn new(config: Config) -> (r: Self)
        ensures
            r.wf(),
            r@.config == config,
            r@.drill_test_results.is_empty(),
            r@.rounds.is_empty(),
            r@.reputation.is_empty(),
            r@.events.len() == 0,
    {
        let r = Pallet {
            config,
            drill_test_results: BTreeMap::new(),
            validation_votes: BTreeMap::new(),
            validator_reputation: BTreeMap::new(),
            events: Vec::new(),
        };
        assert(r@.drill_test_results =~= Map::empty());
        assert(r@.rounds =~= Map::empty());
        r
    }

    /// Pays or penalises the voters of round `validation_id`, whose votes are
    /// `votes`, by increasing account, and announces each transfer and then the
    /// decision. Returns the transfers for the ledger.
    pub fn finalize_validation(
        &mut self,
        votes: &BTreeMap<AccountId, bool>,
        validation_id: Digest,
        approved: bool,
    ) -> (ops: Vec<LedgerOp>)
        ensures
            settles(votes@, approved, old(self)@.config, ops@),
            final(self)@ == (ConsensusState {
                events: old(self)@.events + settlement_notices(ops@, validation_id, approved),
                ..old(self)@
            }),
    {
        let reward = self.config.validation_reward;
        let penalty = self.config.penalty_amount;
        let ghost config = self.config;
        let ghost events0 = self.events@;
        let mut ops: Vec<LedgerOp> = Vec::new();
        let ghost all = votes.iter().remaining();
        let ghost mut visited: int = 0;
        for (validator, vote) in it: votes.iter()
            invariant
                it.seq() == all,
                visited == it.index(),
                vstd::std_specs::btree::increasing_seq(keys_of(all)),
                self.config == config,
                reward == config.validation_reward,
                penalty == config.penalty_amount,
                self.drill_test_results == old(self).drill_test_results,
                self.validation_votes == old(self).validation_votes,
                self.validator_reputation == old(self).validator_reputation,
                ops@ == settlement_of(entries_of(it.seq().take(it.index())), approved, config),
                self.events@ == events0 + notices_of(ops@),
        {
            let ghost before = entries_of(it.seq().take(it.index()));
            if approved {
                ops.push(LedgerOp::DepositCreating(*validator, reward));
                self.events.push(Event::RewardDistributed(*validator, reward));
            } else if !*vote {
                ops.push(LedgerOp::Withdraw(*validator, penalty));
                self.events.push(Event::ValidatorPenalized(*validator, penalty));
            }
            proof {
                let after = entries_of(it.seq().take(it.index() + 1));
                assert(after.drop_last() =~= before);
                assert(self.events@ =~= events0 + notices_of(ops@));
                visited = visited + 1;
            }
        }
        proof {
            assert(visited == all.len());
            assert(all.take(visited) =~= all);
            lemma_listing_in_key_order(votes, all);
        }
        self.events.push(Event::DrillTestValidated(validation_id, approved));
        proof {
            assert(self.events@ =~= events0 + settlement_notices(ops@, validation_id, approved));
        }
        ops
    }

    /// Stores `round` under `id`, in place of what was there.
    fn put_round(&mut self, id: Digest, round: ValidationVote)
        ensures
            final(self)@ == (ConsensusState {
                rounds: old(self)@.rounds.insert(id, round@),
                ..old(self)@
            }),
    {
        let ghost v = round@;
        self.validation_votes.insert(id, round);
        assert(self@.rounds =~= old(self)@.rounds.insert(id, v));
    }

    /// Takes the round stored under `id` out of the table.
    fn take_round(&mut self, id: Digest) -> (r: Option<ValidationVote>)
        ensures
            match r {
                Some(v) => {
                    &&& old(self)@.rounds.contains_key(id)
                    &&& v@ == old(self)@.rounds[id]
                },
                None => !old(self)@.rounds.contains_key(id),
            },
            final(self)@ == (ConsensusState { rounds: old(self)@.rounds.remove(id), ..old(self)@ }),
    {
        let r = self.validation_votes.remove(&id);
        assert(self@.rounds =~= old(self)@.rounds.remove(id));
        r
    }

    /// Records the drill test of `who` in place of its previous one, and opens
    /// a round for it at time `now`, with no votes, under an id derived from
    /// `who` (a round already under that id is replaced). Returns the id.
    pub fn submit_drill_test(
        &mut self,
        who: AccountId,
        task_id: u64,
        performance_metrics: Vec<(String, u64)>,
        now: u64,
    ) -> (r: Digest)
        requires
            old(self).wf(),
        ensures
            final(self).wf(),
            r == account_digest(who),
            final(self)@.drill_test_results == old(self)@.drill_test_results.insert(
                who,
                DrillTestRecord {
                    task_id,
                    success: true,
                    performance_metrics: performance_metrics@.map_values(
                        |m: (String, u64)| (m.0@, m.1),
                    ),
                },
            ),
            final(self)@.rounds == old(self)@.rounds.insert(
                r,
                RoundView {
                    votes: Map::empty(),
                    approval_count: 0,
                    rejection_count: 0,
                    final_decision: None,
                    time_started: now,
                },
            ),
            final(self)@.reputation == old(self)@.reputation,
            final(self)@.config == old(self)@.config,
            final(self)@.events == old(self)@.events.push(Event::DrillTestSubmitted(who, task_id)),
    {
        let result = DrillTestResult { task_id, success: true, performance_metrics };
        let ghost record = result@;
        self.drill_test_results.insert(who, result);
        assert(self@.drill_test_results =~= old(self)@.drill_test_results.insert(who, record));
        let validation_id = account_id_digest(who);
        let vote = ValidationVote {
            validators: BTreeMap::new(),
            approval_count: 0,
            rejection_count: 0,
            final_decision: None,
            time_started: now,
        };
        proof {
            lemma_empty_tally(now);
        }
        self.put_round(validation_id, vote);
        self.events.push(Event::DrillTestSubmitted(who, task_id));
        assert forall|id: Digest| #[trigger] self@.rounds.contains_key(id) implies tallied(
            self@.rounds[id],
        ) by {
            if id != validation_id {
                assert(old(self)@.rounds.contains_key(id));
            }
        }
        validation_id
    }

    /// Moves the score of `validator` one up for an approval, one down
    /// otherwise.
    fn adjust_reputation(&mut self, validator: AccountId, accurate: bool)
        ensures
            final(self)@ == (ConsensusState {
                reputation: old(self)@.reputation.insert(
                    validator,
                    reputation_after(score_of(old(self)@.reputation, validator), accurate),
                ),
                ..old(self)@
            }),
    {
        let rep: u32 = match self.validator_reputation.get(&validator) {
            Some(r) => *r,
            None => 0,
        };
        let new_rep = if accurate {
            rep.saturating_add(1)
        } else {
            rep.saturating_sub(1)
        };
        self.validator_reputation.insert(validator, new_rep);
    }

    /// Decides round `validation_id` once a side has a supermajority, and then
    /// settles it. Returns the transfers of the settlement, if any.
    fn check_validation_status(&mut self, vote: &mut ValidationVote, validation_id: Digest) -> (ops:
        Vec<LedgerOp>)
        requires
            old(vote).final_decision is None,
        ensures
            final(vote)@ == (RoundView {
                final_decision: supermajority(
                    old(vote).approval_count as int,
                    old(vote).rejection_count as int,
                ),
                ..old(vote)@
            }),
            match supermajority(old(vote).approval_count as int, old(vote).rejection_count as int) {
                Some(approved) => {
                    &&& settles(old(vote)@.votes, approved, old(self)@.config, ops@)
                    &&& final(self)@ == (ConsensusState {
                        events: old(self)@.events + settlement_notices(
                            ops@,
                            validation_id,
                            approved,
                        ),
                        ..old(self)@
                    })
                },
                None => ops@.len() == 0 && final(self)@ == old(self)@,
            },
    {
        match supermajority_decision(vote.approval_count, vote.rejection_count) {
            Some(approved) => {
                vote.final_decision = Some(approved);
                self.finalize_validation(&vote.validators, validation_id, approved)
            },
            None => Vec::new(),
        }
    }

    /// Records the vote of `who` in open round `validation_id` at time `now`,
    /// replacing an earlier vote of `who` there, recounts both sides, moves the
    /// score of `who`, and decides and settles the round once a side has a
    /// supermajority. Returns the transfers of the settlement for the ledger.
    /// A failed call changes nothing.
    pub fn cast_validation_vote(
        &mut self,
        who: AccountId,
        validation_id: Digest,
        approve: bool,
        now: u64,
    ) -> (r: Result<Vec<LedgerOp>, Error>)
        requires
            old(self).wf(),
        ensures
            final(self).wf(),
            !is_open(old(self)@, validation_id) ==> r == Err::<Vec<LedgerOp>, Error>(
                Error::ValidationNotFound,
            ),
            is_open(old(self)@, validation_id) && window_closed(
                now,
                old(self)@.rounds[validation_id].time_started,
                old(self)@.config.validation_window,
            ) ==> r == Err::<Vec<LedgerOp>, Error>(Error::ValidationWindowClosed),
            is_open(old(self)@, validation_id) && !window_closed(
                now,
                old(self)@.rounds[validation_id].time_started,
                old(self)@.config.validation_window,
            ) ==> {
                let votes = votes_after(old(self)@, validation_id, who, approve);
                if approvers(votes).len() > u32::MAX || dissenters(votes).len() > u32::MAX {
                    r == Err::<Vec<LedgerOp>, Error>(Error::VoteCountOverflow)
                } else {
                    r matches Ok(ops) && vote_recorded(
                        old(self)@,
                        validation_id,
                        who,
                        approve,
                        ops@,
                        final(self)@,
                    )
                }
            },
            r is Err ==> final(self)@ == old(self)@,
    {
        let (approvals, rejections) = match self.validation_votes.get(&validation_id) {
            None => {
                return Err(Error::ValidationNotFound);
            },
            Some(round) => {
                if round.final_decision.is_some() {
                    return Err(Error::ValidationNotFound);
                }
                if now > round.time_started && now - round.time_started
                    > self.config.validation_window {
                    return Err(Error::ValidationWindowClosed);
                }
                proof {
                    assert(self@.rounds.contains_key(validation_id));
                    assert(tallied(self@.rounds[validation_id]));
                    lemma_tally_insert(round.validators@, who, approve);
                }
                let previous: Option<bool> = match round.validators.get(&who) {
                    Some(v) => Some(*v),
                    None => None,
                };
                let a = round.approval_count;
                let j = round.rejection_count;
                match previous {
                    Some(p) => {
                        if p == approve {
                            (a, j)
                        } else if approve {
                            if a == u32::MAX {
                                return Err(Error::VoteCountOverflow);
                            }
                            (a + 1, j - 1)
                        } else {
                            if j == u32::MAX {
                                return Err(Error::VoteCountOverflow);
                            }
                            (a - 1, j + 1)
                        }
                    },
                    None => {
                        if approve {
                            if a == u32::MAX {
                                return Err(Error::VoteCountOverflow);
                            }
                            (a + 1, j)
                        } else {
                            if j == u32::MAX {
                                return Err(Error::VoteCountOverflow);
                            }
                            (a, j + 1)
                        }
                    },
                }
            },
        };
        let mut vote = match self.take_round(validation_id) {
            Some(v) => v,
            None => {
                return Err(Error::ValidationNotFound);
            },
        };
        vote.validators.insert(who, approve);
        vote.approval_count = approvals;
        vote.rejection_count = rejections;
        let ghost votes = votes_after(old(self)@, validation_id, who, approve);
        assert(vote.validators@ == votes);
        assert(approvals == approvers(votes).len());
        assert(rejections == dissenters(votes).len());
        self.adjust_reputation(who, approve);
        let ops = self.check_validation_status(&mut vote, validation_id);
        self.put_round(validation_id, vote);
        self.events.push(Event::ValidationVoteCast(validation_id, who, approve));
        proof {
            let decision = supermajority(approvals as int, rejections as int);
            assert(self@.rounds == old(self)@.rounds.insert(
                validation_id,
                RoundView {
                    votes,
                    approval_count: approvals,
                    rejection_count: rejections,
                    final_decision: decision,
                    time_started: old(self)@.rounds[validation_id].time_started,
                },
            ));
            assert(self@.reputation == old(self)@.reputation.insert(
                who,
                reputation_after(score_of(old(self)@.reputation, who), approve),
            ));
            match decision {
                Some(approved) => {
                    assert(self@.events =~= old(self)@.events + settlement_notices(ops@, validation_id, approved).push(
                        Event::ValidationVoteCast(validation_id, who, approve),
                    ));
                },
                None => {},
            }
        }
        Ok(ops)
    }

    /// The latest drill test of `who`, if any.
    pub fn drill_test_results(&self, who: AccountId) -> (r: Option<&DrillTestResult>)
        ensures
            match r {
                Some(d) => self@.drill_test_results.contains_key(who) && d@
                    == self@.drill_test_results[who],
                None => !self@.drill_test_results.contains_key(who),
            },
    {
        self.drill_test_results.get(&who)
    }

    /// The round stored under `validation_id`, if any.
    pub fn validation_votes(&self, validation_id: Digest) -> (r: Option<&ValidationVote>)
        ensures
            match r {
                Some(v) => self@.rounds.contains_key(validation_id) && v@
                    == self@.rounds[validation_id],
                None => !self@.rounds.contains_key(validation_id),
            },
    {
        self.validation_votes.get(&validation_id)
    }

    /// The score of `validator`, if it has voted.
    pub fn validator_reputation(&self, validator: AccountId) -> (r: Option<u32>)
        ensures
            r == (if self@.reputation.contains_key(validator) {
                Some(self@.reputation[validator])
            } else {
                None
            }),
    {
        match self.validator_reputation.get(&validator) {
            Some(s) => Some(*s),
            None => None,
        }
    }

    /// The parameters of the engine.
    pub fn config(&self) -> (r: Config)
        ensures
            r == self@.config,
    {
        self.config
    }

    /// The notifications so far, oldest first.
    pub fn events(&self) -> (r: &Vec<Event>)
        ensures
            r@ == self@.events,
    {
        &self.events
    }
}

} // verus!
