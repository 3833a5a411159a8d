//! The registry of live channels: at most one per user, last registration
//! wins, and a stale disconnect cannot evict a newer channel.
//!
//! A channel is known here by its identity: a number that `open_channel`
//! hands out for each connection and never hands out twice.
use std::collections::HashMap;
use vstd::prelude::*;

verus! {

broadcast use vstd::std_specs::hash::group_hash_axioms;

/// The registry after `register(id, channel)`.
pub open spec fn after_register(m: Map<i32, u64>, id: i32, channel: u64) -> Map<i32, u64> {
    m.insert(id, channel)
}

/// The registry after `unregister(id, channel)`: the entry goes only if it
/// still names `channel`.
pub open spec fn after_unregister(m: Map<i32, u64>, id: i32, channel: u64) -> Map<i32, u64> {
    if m.contains_key(id) && m[id] == channel {
        m.remove(id)
    } else {
        m
    }
}

/// What `lookup(id)` returns on the registry `m`.
pub open spec fn looked_up(m: Map<i32, u64>, id: i32) -> Option<u64> {
    if m.contains_key(id) {
        Some(m[id])
    } else {
        None
    }
}

/// The live channel of each connected user.
pub struct Registry {
    channels: HashMap<i32, u64>,
    next_channel: u64,
}

impl View for Registry {
    type V = Map<i32, u64>;

    closed spec fn view(&self) -> Map<i32, u64> {
        self.channels@
    }
}

impl Registry {
    /// The identity that the next opened channel gets.
    pub closed spec fn next_channel(&self) -> u64 {
        self.next_channel
    }

    pub fn new() -> (r: Registry)
        ensures
            r@ == Map::<i32, u64>::empty(),
            r.next_channel() == 0,
    {
        Registry { channels: HashMap::new(), next_channel: 0 }
    }

    /// Hands out a channel identity that was never handed out before and
    /// registers it for `id`; `None` once every identity has been used.
    pub fn open_channel(&mut self, id: i32) -> (r: Option<u64>)
        ensures
            match r {
                Some(c) => {
                    &&& c == old(self).next_channel()
                    &&& final(self).next_channel() == c + 1
                    &&& final(self)@ == after_register(old(self)@, id, c)
                },
                None => {
                    &&& old(self).next_channel() == u64::MAX
                    &&& final(self)@ == old(self)@
                    &&& final(self).next_channel() == old(self).next_channel()
                },
            },
    {
        if self.next_channel == u64::MAX {
            return None;
        }
        let c = self.next_channel;
        self.next_channel = c + 1;
        self.register(id, c);
        Some(c)
    }

    /// Binds `id` to `channel`, replacing any channel it had.
    pub fn register(&mut self, id: i32, channel: u64)
        ensures
            final(self)@ == after_register(old(self)@, id, channel),
            final(self).next_channel() == old(self).next_channel(),
    {
        self.channels.insert(id, channel);
    }

    /// Removes the entry of `id` if it still names `channel`; reports whether
    /// it did.
    pub fn unregister(&mut self, id: i32, channel: u64) -> (r: bool)
        ensures
            final(self)@ == after_unregister(old(self)@, id, channel),
            final(self).next_channel() == old(self).next_channel(),
            r == (old(self)@.contains_key(id) && old(self)@[id] == channel),
    {
        match self.lookup(id) {
            Some(c) => {
                if c == channel {
                    self.channels.remove(&id);
                    true
                } else {
                    false
                }
            },
            None => false,
        }
    }

    /// The live channel of `id`, if any.
    pub fn lookup(&self, id: i32) -> (r: Option<u64>)
        ensures
            r == looked_up(self@, id),
    {
        match self.channels.get(&id) {
            Some(c) => Some(*c),
            None => None,
        }
    }
}

/// A second registration for the same user displaces the first; a disconnect
/// of the displaced channel leaves the newer one in place; a disconnect of the
/// newer one removes the entry.
pub proof fn law_last_registration_wins(m: Map<i32, u64>, id: i32, c1: u64, c2: u64)
    requires
        c1 != c2,
    ensures
        ({
            let both = after_register(after_register(m, id, c1), id, c2);
            &&& looked_up(both, id) == Some(c2)
            &&& after_unregister(both, id, c1) == both
            &&& looked_up(after_unregister(both, id, c2), id) == None::<u64>
        }),
{
}

} // verus!
