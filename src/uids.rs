//! Identifier registry: hands out unique numeric ids from a counter that only
//! grows, binds them to accounts, and revokes them.
use vstd::prelude::*;

use std::collections::BTreeMap;
use std::collections::BTreeSet;

use crate::AccountId;

verus! {

/// Notifications of the registry.
#[derive(Clone, Copy, Debug, PartialEq, Eq, Structural)]
pub enum Event {
    UidGenerated(AccountId, u64),
    UidRevoked(AccountId, u64),
}

#[derive(Clone, Copy, Debug, PartialEq, Eq, Structural)]
pub enum Error {
    /// The account holds no id.
    UidNotFound,
    /// The next id is still active.
    UidAlreadyExists,
    /// The counter is at its largest value.
    UidOverflow,
}

/// What the registry holds, as mathematical values.
pub struct UidState {
    /// The id bound to each account.
    pub bindings: Map<AccountId, u64>,
    /// The last id handed out; 0 before the first.
    pub last_uid: u64,
    /// The ids that are currently active.
    pub active: Set<u64>,
    /// Every notification so far, oldest first.
    pub events: Seq<Event>,
}

impl UidState {
    /// Every bound id is active, every active id was handed out by the counter,
    /// and no two accounts hold the same id.
    pub open spec fn wf(self) -> bool {
        &&& forall|a: AccountId| #[trigger]
            self.bindings.contains_key(a) ==> self.active.contains(self.bindings[a])
        &&& forall|u: u64| #[trigger] self.active.contains(u) ==> 1 <= u <= self.last_uid
        &&& forall|a: AccountId, b: AccountId|
            #![trigger self.bindings[a], self.bindings[b]]
            self.bindings.contains_key(a) && self.bindings.contains_key(b) && a != b
                ==> self.bindings[a] != self.bindings[b]
    }

    /// `post` is `self` after `who` was given the fresh id `uid`.
    pub open spec fn generated(self, who: AccountId, uid: u64, post: UidState) -> bool {
        &&& self.last_uid < u64::MAX
        &&& uid == self.last_uid + 1
        &&& !self.active.contains(uid)
        &&& post == UidState {
            bindings: self.bindings.insert(who, uid),
            last_uid: uid,
            active: self.active.insert(uid),
            events: self.events.push(Event::UidGenerated(who, uid)),
        }
    }

    /// `post` is `self` after the id of `who` was revoked.
    pub open spec fn revoked(self, who: AccountId, post: UidState) -> bool {
        &&& self.bindings.contains_key(who)
        &&& post == UidState {
            bindings: self.bindings.remove(who),
            last_uid: self.last_uid,
            active: self.active.remove(self.bindings[who]),
            events: self.events.push(Event::UidRevoked(who, self.bindings[who])),
        }
    }
}

/// The identifier registry.
pub struct Pallet {
    uids: BTreeMap<AccountId, u64>,
    last_uid: u64,
    active_uids: BTreeSet<u64>,
    events: Vec<Event>,
}

impl View for Pallet {
    type V = UidState;

    closed spec fn view(&self) -> UidState {
        UidState {
            bindings: self.uids@,
            last_uid: self.last_uid,
            active: self.active_uids@,
            events: self.events@,
        }
    }
}

impl Pallet {
    pub open spec fn wf(&self) -> bool {
        self@.wf()
    }

    /// An empty registry: no bindings, no active ids, the counter at 0.
    pub fn new() -> (r: Self)
        ensures
            r.wf(),
            r@.bindings.is_empty(),
            r@.last_uid == 0,
            r@.active.is_empty(),
            r@.events.len() == 0,
    {
        Pallet {
            uids: BTreeMap::new(),
            last_uid: 0,
            active_uids: BTreeSet::new(),
            events: Vec::new(),
        }
    }

    /// Advances the counter and returns its new value, which is not active.
    fn generate_unique_uid(&mut self) -> (r: Result<u64, Error>)
        requires
            old(self).wf(),
        ensures
            match r {
                Ok(uid) => {
                    &&& old(self)@.last_uid < u64::MAX
                    &&& uid == old(self)@.last_uid + 1
                    &&& !old(self)@.active.contains(uid)
                    &&& final(self)@ == UidState { last_uid: uid, ..old(self)@ }
                },
                Err(e) => {
                    &&& e == Error::UidOverflow
                    &&& old(self)@.last_uid == u64::MAX
                    &&& final(self)@ == old(self)@
                },
            },
    {
        let last_uid = self.last_uid;
        let new_uid = match last_uid.checked_add(1) {
            Some(u) => u,
            None => return Err(Error::UidOverflow),
        };
        if self.active_uids.contains(&new_uid) {
            // Unreachable while the registry is well formed: every active id is
            // at most the counter.
            assert(self@.active.contains(new_uid));
            return Err(Error::UidAlreadyExists);
        }
        self.last_uid = new_uid;
        Ok(new_uid)
    }

    /// Gives `who` a fresh id, replacing any id it held; the old id stays active.
    /// Fails with `UidOverflow` once the counter is at its largest value.
    pub fn generate_uid(&mut self, who: AccountId) -> (r: Result<u64, Error>)
        requires
            old(self).wf(),
        ensures
            final(self).wf(),
            r is Ok <==> old(self)@.last_uid < u64::MAX,
            match r {
                Ok(uid) => old(self)@.generated(who, uid, final(self)@),
                Err(e) => e == Error::UidOverflow && final(self)@ == old(self)@,
            },
    {
        let new_uid = self.generate_unique_uid()?;
        self.uids.insert(who, new_uid);
        self.active_uids.insert(new_uid);
        self.events.push(Event::UidGenerated(who, new_uid));
        Ok(new_uid)
    }

    /// Takes the id of `who` away and out of the active set.
    /// Fails with `UidNotFound` when `who` holds no id.
    pub fn revoke_uid(&mut self, who: AccountId) -> (r: Result<(), Error>)
        requires
            old(self).wf(),
        ensures
            final(self).wf(),
            r is Ok <==> old(self)@.bindings.contains_key(who),
            r is Ok ==> old(self)@.revoked(who, final(self)@),
            r is Err ==> r == Err::<(), Error>(Error::UidNotFound) && final(self)@ == old(self)@,
    {
        let uid = match self.uids.get(&who) {
            Some(u) => *u,
            None => return Err(Error::UidNotFound),
        };
        let ghost pre = self@;
        self.uids.remove(&who);
        self.active_uids.remove(&uid);
        self.events.push(Event::UidRevoked(who, uid));
        assert forall|a: AccountId| #[trigger] self@.bindings.contains_key(a) implies self@.active.contains(
            self@.bindings[a],
        ) by {
            assert(pre.bindings[a] != pre.bindings[who]);
        }
        assert(self@.bindings == pre.bindings.remove(who));
        assert(self@.active == pre.active.remove(uid));
        assert(forall|u: u64| #[trigger] self@.active.contains(u) ==> 1 <= u <= self@.last_uid);
        Ok(())
    }

    /// The id bound to `who`, if any.
    pub fn get_uid(&self, who: AccountId) -> (r: Option<u64>)
        ensures
            r == (if self@.bindings.contains_key(who) {
                Some(self@.bindings[who])
            } else {
                None
            }),
    {
        match self.uids.get(&who) {
            Some(u) => Some(*u),
            None => None,
        }
    }

    /// The last id handed out.
    pub fn get_last_uid(&self) -> (r: u64)
        ensures
            r == self@.last_uid,
    {
        self.last_uid
    }

    /// Whether `uid` is currently active.
    pub fn is_active(&self, uid: u64) -> (r: bool)
        ensures
            r == self@.active.contains(uid),
    {
        self.active_uids.contains(&uid)
    }

    /// The notifications so far, oldest first.
    pub fn events(&self) -> (r: &Vec<Event>)
        ensures
            r@ == self@.events,
    {
        &self.events
    }
}

/// Two successful id assignments, the second made from a state whose counter
/// has not gone back since the first, hand out different ids; neither id was
/// active before it was assigned.
pub proof fn lemma_uids_unique(
    s0: UidState,
    a: AccountId,
    uid_a: u64,
    s1: UidState,
    s2: UidState,
    b: AccountId,
    uid_b: u64,
    s3: UidState,
)
    requires
        s0.generated(a, uid_a, s1),
        s1.last_uid <= s2.last_uid,
        s2.generated(b, uid_b, s3),
    ensures
        uid_a != uid_b,
        !s0.active.contains(uid_a),
        !s2.active.contains(uid_b),
{
}

} // verus!
