//! Subnet registry: subnets keyed by an id derived from their coordinator (the
//! king), with delegated validators (queens), compute providers and the drill
//! mechanism that grades providers.
use vstd::prelude::*;

use std::collections::BTreeMap;
use std::string::String;

use crate::hashing::{account_digest, account_id_digest, Digest};
use crate::{AccountId, Balance};

verus! {

/// The free balance an account needs to create a subnet.
pub const MIN_STAKE: Balance = 100_000;

/// The kind of work a drill test exercises.
#[derive(Clone, Debug, PartialEq, Eq)]
pub enum DrillTestType {
    Training,
    Inference,
    /// A kind named by the subnet's coordinator.
    Custom(Vec<u8>),
}

pub enum DrillTestTypeView {
    Training,
    Inference,
    Custom(Seq<u8>),
}

impl View for DrillTestType {
    type V = DrillTestTypeView;

    open spec fn view(&self) -> DrillTestTypeView {
        match self {
            DrillTestType::Training => DrillTestTypeView::Training,
            DrillTestType::Inference => DrillTestTypeView::Inference,
            DrillTestType::Custom(name) => DrillTestTypeView::Custom(name@),
        }
    }
}

/// A performance metric and the target that a provider must meet or exceed.
/// The target is a binary64 float carried as its bit pattern
/// (`f64::to_bits`): the registry stores it and never computes with it.
#[derive(Clone, Debug, PartialEq, Eq)]
pub struct Metric {
    pub name: Vec<u8>,
    pub target_value_bits: u64,
}

impl View for Metric {
    type V = (Seq<u8>, u64);

    open spec fn view(&self) -> (Seq<u8>, u64) {
        (self.name@, self.target_value_bits)
    }
}

/// The named test that a subnet runs against its providers, with its metrics.
#[derive(Clone, Debug, PartialEq, Eq)]
pub struct DrillMechanism {
    pub test_name: Vec<u8>,
    pub test_type: DrillTestType,
    pub performance_metrics: Vec<Metric>,
}

pub struct DrillMechanismView {
    pub test_name: Seq<u8>,
    pub test_type: DrillTestTypeView,
    pub performance_metrics: Seq<(Seq<u8>, u64)>,
}

impl View for DrillMechanism {
    type V = DrillMechanismView;

    open spec fn view(&self) -> DrillMechanismView {
        DrillMechanismView {
            test_name: self.test_name@,
            test_type: self.test_type@,
            performance_metrics: self.performance_metrics@.map_values(|m: Metric| m@),
        }
    }
}

/// A subnet: its coordinator, its statements, its delegates and providers (in
/// the order they were added, repeats kept), its drill mechanism, and whether
/// its last validation found it active.
#[derive(Clone, Debug, PartialEq, Eq)]
pub struct Subnet {
    pub king: AccountId,
    pub vision: Vec<u8>,
    pub mission: Vec<u8>,
    pub queens: Vec<AccountId>,
    pub providers: Vec<AccountId>,
    pub drill_mechanism: DrillMechanism,
    pub active: bool,
}

pub struct SubnetView {
    pub king: AccountId,
    pub vision: Seq<u8>,
    pub mission: Seq<u8>,
    pub queens: Seq<AccountId>,
    pub providers: Seq<AccountId>,
    pub drill_mechanism: DrillMechanismView,
    pub active: bool,
}

impl View for Subnet {
    type V = SubnetView;

    open spec fn view(&self) -> SubnetView {
        SubnetView {
            king: self.king,
            vision: self.vision@,
            mission: self.mission@,
            queens: self.queens@,
            providers: self.providers@,
            drill_mechanism: self.drill_mechanism@,
            active: self.active,
        }
    }
}

/// The outcome of a drill test run against one provider. Each metric value is
/// a binary64 float carried as its bit pattern.
#[derive(Clone, Debug, PartialEq, Eq)]
pub struct DrillTestResult {
    pub success: bool,
    pub metrics: Vec<(String, u64)>,
}

/// Notifications of the registry.
#[derive(Debug, PartialEq, Eq)]
pub enum Event {
    SubnetCreated(AccountId, Digest),
    SubnetValidated(Digest),
    QueenAdded(Digest, AccountId),
    ProviderAdded(Digest, AccountId),
    DrillMechanismSpecified(Digest, DrillMechanism),
}

#[derive(Clone, Copy, Debug, PartialEq, Eq, Structural)]
pub enum Error {
    /// No subnet has that id.
    SubnetNotFound,
    /// The caller holds no role that allows the call.
    Unauthorized,
    /// The caller's free balance is below `MIN_STAKE`.
    InsufficientStake,
    /// The caller's subnet id is already taken.
    SubnetAlreadyExists,
}

/// What the registry holds, as mathematical values.
pub struct RegistryState {
    pub subnets: Map<Digest, SubnetView>,
    /// Every notification so far, oldest first.
    pub events: Seq<Event>,
}

/// The subnet registry.
pub struct Pallet {
    subnets: BTreeMap<Digest, Subnet>,
    events: Vec<Event>,
}

impl View for Pallet {
    type V = RegistryState;

    closed spec fn view(&self) -> RegistryState {
        RegistryState {
            subnets: self.subnets@.map_values(|s: Subnet| s@),
            events: self.events@,
        }
    }
}

/// The number of results in `results` that passed.
pub open spec fn pass_count(results: Seq<(AccountId, DrillTestResult)>) -> nat
    decreases results.len(),
{
    if results.len() == 0 {
        0
    } else {
        pass_count(results.drop_last()) + if results.last().1.success {
            1nat
        } else {
            0nat
        }
    }
}

/// A subnet is active when at least three quarters of its providers passed;
/// with no providers there is no pass rate and it is not.
pub open spec fn meets_activity_threshold(passes: nat, total: nat) -> bool {
    total > 0 && 4 * passes >= 3 * total
}

/// Whether `who` may validate `s`: its coordinator or one of its delegates.
pub open spec fn may_validate(s: SubnetView, who: AccountId) -> bool {
    s.king == who || s.queens.contains(who)
}

/// `results` holds one result for each provider of `s`, in the providers' order.
pub open spec fn results_follow_providers(
    s: SubnetView,
    results: Seq<(AccountId, DrillTestResult)>,
) -> bool {
    &&& results.len() == s.providers.len()
    &&& forall|i: int| 0 <= i < results.len() ==> #[trigger] results[i].0 == s.providers[i]
}

/// Whether the drill results make a subnet valid: at least three quarters of
/// them passed, and there is at least one.
pub fn aggregate_results(results: &Vec<(AccountId, DrillTestResult)>) -> (r: bool)
    ensures
        r == meets_activity_threshold(pass_count(results@), results@.len()),
{
    let mut total_pass: usize = 0;
    let mut i: usize = 0;
    while i < results.len()
        invariant
            i <= results@.len(),
            total_pass == pass_count(results@.subrange(0, i as int)),
            total_pass <= i,
        decreases results@.len() - i,
    {
        proof {
            assert(results@.subrange(0, i + 1).drop_last() =~= results@.subrange(0, i as int));
        }
        if results[i].1.success {
            total_pass = total_pass + 1;
        }
        i = i + 1;
    }
    assert(results@.subrange(0, i as int) =~= results@);
    let n = results.len();
    n > 0 && (total_pass as u128) * 4 >= (n as u128) * 3
}

/// Whether `a` occurs in `v`.
fn contains_account(v: &Vec<AccountId>, a: AccountId) -> (r: bool)
    ensures
        r == v@.contains(a),
{
    let mut i: usize = 0;
    while i < v.len()
        invariant
            i <= v@.len(),
            forall|j: int| 0 <= j < i ==> v@[j] != a,
        decreases v@.len() - i,
    {
        if v[i] == a {
            return true;
        }
        i = i + 1;
    }
    false
}

fn copy_bytes(v: &Vec<u8>) -> (r: Vec<u8>)
    ensures
        r@ == v@,
{
    let r = v.clone();
    assert(r@ =~= v@);
    r
}

fn copy_mechanism(m: &DrillMechanism) -> (r: DrillMechanism)
    ensures
        r@ == m@,
{
    let test_type = match &m.test_type {
        DrillTestType::Training => DrillTestType::Training,
        DrillTestType::Inference => DrillTestType::Inference,
        DrillTestType::Custom(name) => DrillTestType::Custom(copy_bytes(name)),
    };
    let mut metrics: Vec<Metric> = Vec::new();
    let mut i: usize = 0;
    while i < m.performance_metrics.len()
        invariant
            i <= m.performance_metrics@.len(),
            metrics@.len() == i,
            forall|j: int| 0 <= j < i ==> #[trigger] metrics@[j]@ == m.performance_metrics@[j]@,
        decreases m.performance_metrics@.len() - i,
    {
        let metric = &m.performance_metrics[i];
        metrics.push(
            Metric { name: copy_bytes(&metric.name), target_value_bits: metric.target_value_bits },
        );
        i = i + 1;
    }
    let r = DrillMechanism {
        test_name: copy_bytes(&m.test_name),
        test_type,
        performance_metrics: metrics,
    };
    assert(r@.performance_metrics =~= m@.performance_metrics);
    r
}

impl Pallet {
    /// A registry with no subnets.
    pub fn new() -> (r: Self)
        ensures
            r@.subnets.is_empty(),
            r@.events.len() == 0,
    {
        let r = Pallet { subnets: BTreeMap::new(), events: Vec::new() };
        assert(r@.subnets =~= Map::empty());
        r
    }

    /// Creates the subnet of `who`, whose free balance on the ledger is
    /// `free_balance`. Its id is derived from `who`; it starts active, with no
    /// delegates or providers.
    pub fn create_subnet(
        &mut self,
        who: AccountId,
        free_balance: Balance,
        vision: Vec<u8>,
        mission: Vec<u8>,
        drill_mechanism: DrillMechanism,
    ) -> (r: Result<Digest, Error>)
        ensures
            free_balance < MIN_STAKE ==> r == Err::<Digest, Error>(Error::InsufficientStake),
            free_balance >= MIN_STAKE && old(self)@.subnets.contains_key(account_digest(who))
                ==> r == Err::<Digest, Error>(Error::SubnetAlreadyExists),
            r is Err ==> final(self)@ == old(self)@,
            free_balance >= MIN_STAKE && !old(self)@.subnets.contains_key(account_digest(who))
                ==> {
                let id = account_digest(who);
                &&& r == Ok::<Digest, Error>(id)
                &&& final(self)@.subnets == old(self)@.subnets.insert(
                    id,
                    SubnetView {
                        king: who,
                        vision: vision@,
                        mission: mission@,
                        queens: Seq::empty(),
                        providers: Seq::empty(),
                        drill_mechanism: drill_mechanism@,
                        active: true,
                    },
                )
                &&& final(self)@.events.len() == old(self)@.events.len() + 2
                &&& final(self)@.events.take(old(self)@.events.len() as int) == old(self)@.events
                &&& final(self)@.events[old(self)@.events.len() as int] == Event::SubnetCreated(
                    who,
                    id,
                )
                &&& final(self)@.events.last() matches Event::DrillMechanismSpecified(i, m) && i
                    == id && m@ == drill_mechanism@
            },
    {
        if free_balance < MIN_STAKE {
            return Err(Error::InsufficientStake);
        }
        let subnet_id = account_id_digest(who);
        if self.subnets.contains_key(&subnet_id) {
            proof {
                assert(self@.subnets.contains_key(subnet_id));
            }
            return Err(Error::SubnetAlreadyExists);
        }
        let announced = copy_mechanism(&drill_mechanism);
        let subnet = Subnet {
            king: who,
            vision,
            mission,
            queens: Vec::new(),
            providers: Vec::new(),
            drill_mechanism,
            active: true,
        };
        self.subnets.insert(subnet_id, subnet);
        proof {
            assert(self@.subnets =~= old(self)@.subnets.insert(subnet_id, subnet@));
        }
        let ghost events_before = self.events@;
        self.events.push(Event::SubnetCreated(who, subnet_id));
        self.events.push(Event::DrillMechanismSpecified(subnet_id, announced));
        assert(self.events@.take(events_before.len() as int) =~= events_before);
        Ok(subnet_id)
    }

    /// Stores `subnet` under `id`, in place of what was there.
    fn put_subnet(&mut self, id: Digest, subnet: Subnet)
        ensures
            final(self)@.subnets == old(self)@.subnets.insert(id, subnet@),
            final(self)@.events == old(self)@.events,
    {
        let ghost v = subnet@;
        self.subnets.insert(id, subnet);
        assert(self@.subnets =~= old(self)@.subnets.insert(id, v));
    }

    /// Takes the subnet stored under `id` out of the table.
    fn take_subnet(&mut self, id: Digest) -> (r: Option<Subnet>)
        ensures
            match r {
                Some(s) => {
                    &&& old(self)@.subnets.contains_key(id)
                    &&& s@ == old(self)@.subnets[id]
                    &&& final(self)@.subnets == old(self)@.subnets.remove(id)
                },
                None => !old(self)@.subnets.contains_key(id) && final(self)@.subnets
                    == old(self)@.subnets,
            },
            final(self)@.events == old(self)@.events,
    {
        let r = self.subnets.remove(&id);
        assert(self@.subnets =~= old(self)@.subnets.remove(id));
        r
    }

    /// Appends `queen` to the delegates of subnet `subnet_id`; only its
    /// coordinator may. A failed call changes nothing.
    pub fn add_queen(&mut self, who: AccountId, subnet_id: Digest, queen: AccountId) -> (r: Result<
        (),
        Error,
    >)
        ensures
            !old(self)@.subnets.contains_key(subnet_id) ==> r == Err::<(), Error>(
                Error::SubnetNotFound,
            ),
            old(self)@.subnets.contains_key(subnet_id) && old(self)@.subnets[subnet_id].king != who
                ==> r == Err::<(), Error>(Error::Unauthorized),
            r is Err ==> final(self)@ == old(self)@,
            old(self)@.subnets.contains_key(subnet_id) && old(self)@.subnets[subnet_id].king == who
                ==> {
                let s = old(self)@.subnets[subnet_id];
                &&& r is Ok
                &&& final(self)@.subnets == old(self)@.subnets.insert(
                    subnet_id,
                    SubnetView { queens: s.queens.push(queen), ..s },
                )
                &&& final(self)@.events == old(self)@.events.push(
                    Event::QueenAdded(subnet_id, queen),
                )
            },
    {
        match self.subnets.get(&subnet_id) {
            Some(s) => {
                if s.king != who {
                    return Err(Error::Unauthorized);
                }
            },
            None => {
                return Err(Error::SubnetNotFound);
            },
        }
        let mut subnet = match self.take_subnet(subnet_id) {
            Some(s) => s,
            None => {
                return Err(Error::SubnetNotFound);
            },
        };
        subnet.queens.push(queen);
        self.put_subnet(subnet_id, subnet);
        self.events.push(Event::QueenAdded(subnet_id, queen));
        Ok(())
    }

    /// Appends `provider` to the providers of subnet `subnet_id`; only its
    /// coordinator may. A failed call changes nothing.
    pub fn add_provider(&mut self, who: AccountId, subnet_id: Digest, provider: AccountId) -> (r:
        Result<(), Error>)
        ensures
            !old(self)@.subnets.contains_key(subnet_id) ==> r == Err::<(), Error>(
                Error::SubnetNotFound,
            ),
            old(self)@.subnets.contains_key(subnet_id) && old(self)@.subnets[subnet_id].king != who
                ==> r == Err::<(), Error>(Error::Unauthorized),
            r is Err ==> final(self)@ == old(self)@,
            old(self)@.subnets.contains_key(subnet_id) && old(self)@.subnets[subnet_id].king == who
                ==> {
                let s = old(self)@.subnets[subnet_id];
                &&& r is Ok
                &&& final(self)@.subnets == old(self)@.subnets.insert(
                    subnet_id,
                    SubnetView { providers: s.providers.push(provider), ..s },
                )
                &&& final(self)@.events == old(self)@.events.push(
                    Event::ProviderAdded(subnet_id, provider),
                )
            },
    {
        match self.subnets.get(&subnet_id) {
            Some(s) => {
                if s.king != who {
                    return Err(Error::Unauthorized);
                }
            },
            None => {
                return Err(Error::SubnetNotFound);
            },
        }
        let mut subnet = match self.take_subnet(subnet_id) {
            Some(s) => s,
            None => {
                return Err(Error::SubnetNotFound);
            },
        };
        subnet.providers.push(provider);
        self.put_subnet(subnet_id, subnet);
        self.events.push(Event::ProviderAdded(subnet_id, provider));
        Ok(())
    }

    /// Grades subnet `subnet_id` on the drill results of its providers, one
    /// for each provider in order: it is active when at least three quarters
    /// of them passed. Its coordinator and its delegates may call this. A
    /// failed call changes nothing.
    pub fn validate_subnet(
        &mut self,
        who: AccountId,
        subnet_id: Digest,
        validation_results: &Vec<(AccountId, DrillTestResult)>,
    ) -> (r: Result<(), Error>)
        requires
            old(self)@.subnets.contains_key(subnet_id) ==> results_follow_providers(
                old(self)@.subnets[subnet_id],
                validation_results@,
            ),
        ensures
            !old(self)@.subnets.contains_key(subnet_id) ==> r == Err::<(), Error>(
                Error::SubnetNotFound,
            ),
            old(self)@.subnets.contains_key(subnet_id) && !may_validate(
                old(self)@.subnets[subnet_id],
                who,
            ) ==> r == Err::<(), Error>(Error::Unauthorized),
            r is Err ==> final(self)@ == old(self)@,
            old(self)@.subnets.contains_key(subnet_id) && may_validate(
                old(self)@.subnets[subnet_id],
                who,
            ) ==> {
                let s = old(self)@.subnets[subnet_id];
                &&& r is Ok
                &&& final(self)@.subnets == old(self)@.subnets.insert(
                    subnet_id,
                    SubnetView {
                        active: meets_activity_threshold(
                            pass_count(validation_results@),
                            s.providers.len(),
                        ),
                        ..s
                    },
                )
                &&& final(self)@.events == old(self)@.events.push(Event::SubnetValidated(subnet_id))
            },
    {
        match self.subnets.get(&subnet_id) {
            Some(s) => {
                if s.king != who && !contains_account(&s.queens, who) {
                    return Err(Error::Unauthorized);
                }
            },
            None => {
                return Err(Error::SubnetNotFound);
            },
        }
        let valid = aggregate_results(validation_results);
        let mut subnet = match self.take_subnet(subnet_id) {
            Some(s) => s,
            None => {
                return Err(Error::SubnetNotFound);
            },
        };
        subnet.active = valid;
        self.put_subnet(subnet_id, subnet);
        self.events.push(Event::SubnetValidated(subnet_id));
        Ok(())
    }

    /// The subnet stored under `subnet_id`, if any.
    pub fn subnets(&self, subnet_id: Digest) -> (r: Option<&Subnet>)
        ensures
            match r {
                Some(s) => self@.subnets.contains_key(subnet_id) && s@ == self@.subnets[subnet_id],
                None => !self@.subnets.contains_key(subnet_id),
            },
    {
        self.subnets.get(&subnet_id)
    }

    /// The notifications so far, oldest first.
    pub fn events(&self) -> (r: &Vec<Event>)
        ensures
            r@ == self@.events,
    {
        &self.events
    }
}

} // verus!
