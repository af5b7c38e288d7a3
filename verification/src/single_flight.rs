//! Calls in flight: the first caller of a key leads and runs the call, and
//! whoever asks for that key while the leader is at work follows it.

use vstd::hash_map::StringHashMap;
use vstd::prelude::*;

verus! {

/// What a caller is to do about a key.
pub enum Role<S> {
    /// Nobody is at work on the key: the caller runs the call and completes
    /// the slot it brought when it is done.
    Leader,
    /// A leader is at work: the caller waits on the leader's slot, of which
    /// this is a handle.
    Follower(S),
}

/// The slots of the calls in flight, by key. `S` is a handle on a slot: the
/// registry stores the leader's and hands a copy to each follower.
#[verifier::reject_recursive_types(S)]
pub struct SingleFlightRegistry<S> {
    slots: StringHashMap<S>,
}

/// Whether a caller that asks for `key` leads.
pub open spec fn leads<S>(slots: Map<Seq<char>, S>, key: Seq<char>) -> bool {
    !slots.contains_key(key)
}

/// The slots after a caller has asked for `key` and brought `slot`.
pub open spec fn joined<S>(slots: Map<Seq<char>, S>, key: Seq<char>, slot: S) -> Map<
    Seq<char>,
    S,
> {
    if leads(slots, key) {
        slots.insert(key, slot)
    } else {
        slots
    }
}

/// The slots after the leader of `key` is done.
pub open spec fn completed<S>(slots: Map<Seq<char>, S>, key: Seq<char>) -> Map<Seq<char>, S> {
    slots.remove(key)
}

impl<S: Clone> SingleFlightRegistry<S> {
    /// The slots of the calls in flight.
    pub closed spec fn view(&self) -> Map<Seq<char>, S> {
        self.slots@
    }

    pub fn new() -> (registry: Self)
        ensures
            registry@ == Map::<Seq<char>, S>::empty(),
    {
        SingleFlightRegistry { slots: StringHashMap::new() }
    }

    /// Decides the caller's role for `key` and registers `slot` where it
    /// leads, in one step.
    pub fn join_or_lead(&mut self, key: &str, slot: S) -> (role: Role<S>)
        ensures
            final(self)@ == joined(old(self)@, key@, slot),
            match role {
                Role::Leader => leads(old(self)@, key@),
                Role::Follower(observed) => !leads(old(self)@, key@) && cloned(
                    old(self)@[key@],
                    observed,
                ),
            },
    {
        match self.slots.get(key) {
            Some(existing) => Role::Follower(existing.clone()),
            None => {
                self.slots.insert(key.to_owned(), slot);
                Role::Leader
            },
        }
    }

    /// Removes the slot of `key`: its leader is done, whatever came of the
    /// call. Who asks for the key from now on leads.
    pub fn complete(&mut self, key: &str)
        ensures
            final(self)@ == completed(old(self)@, key@),
    {
        self.slots.remove(key);
    }

    /// Whether a leader is at work on `key`.
    pub fn is_in_flight(&self, key: &str) -> (in_flight: bool)
        ensures
            in_flight == !leads(self@, key@),
    {
        self.slots.contains_key(key)
    }
}

/// A key has at most one leader at a time: whoever asks for a key after its
/// leader, and before the leader is done, follows, whatever happens to other
/// keys in between.
pub proof fn lemma_one_leader_per_key<S>(
    slots: Map<Seq<char>, S>,
    key: Seq<char>,
    first: S,
    other_key: Seq<char>,
    other: S,
)
    requires
        other_key != key,
    ensures
        !leads(joined(slots, key, first), key),
        !leads(joined(joined(slots, key, first), other_key, other), key),
        !leads(completed(joined(slots, key, first), other_key), key),
        leads(completed(joined(slots, key, first), key), key),
{
}

} // verus!
