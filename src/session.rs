//! One realtime session per connection: open registers the user's channel
//! and greets, each text frame gets its reply, close removes the channel
//! unless a newer connection of the same user has replaced it.
use crate::registry::{after_register, after_unregister, Registry};
use crate::wire::{json_str_member, reply, reply_text, welcome, welcome_text};
use vstd::prelude::*;

verus! {

/// An open session: the user and the identity of its channel.
#[derive(Clone, Copy, Debug, PartialEq, Eq, Structural)]
pub struct Session {
    pub user_id: i32,
    pub channel: u64,
}

impl Session {
    /// Opens a session for `user_id`: registers a fresh channel for it and
    /// returns the session with the welcome frame to send first. `None` once
    /// the registry has no channel identity left.
    pub fn open(registry: &mut Registry, user_id: i32) -> (r: Option<(Session, String)>)
        ensures
            match r {
                Some((s, w)) => {
                    &&& s.user_id == user_id
                    &&& s.channel == old(registry).next_channel()
                    &&& final(registry)@ == after_register(old(registry)@, user_id, s.channel)
                    &&& w@ == welcome_text(user_id)
                },
                None => {
                    &&& old(registry).next_channel() == u64::MAX
                    &&& final(registry)@ == old(registry)@
                },
            },
    {
        match registry.open_channel(user_id) {
            Some(c) => Some((Session { user_id, channel: c }, welcome(user_id))),
            None => None,
        }
    }

    /// The reply to a text frame from the client.
    pub fn on_text(&self, text: &str) -> (r: String)
        ensures
            r@ == reply_text(text@, json_str_member(text@, "type"@)),
    {
        reply(text)
    }

    /// Closes the session: its channel leaves the registry if it is still the
    /// one registered for the user.
    pub fn close(self, registry: &mut Registry) -> (r: bool)
        ensures
            final(registry)@ == after_unregister(old(registry)@, self.user_id, self.channel),
            r == (old(registry)@.contains_key(self.user_id) && old(registry)@[self.user_id]
                == self.channel),
    {
        registry.unregister(self.user_id, self.channel)
    }
}

} // verus!
