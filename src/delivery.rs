//! The store of matches and messages, and the delivery pipeline: a message is
//! stored only between matched users, then pushed to whichever of the two
//! users hold a live channel.
use crate::ledger::{
    after_create, after_delete, canonical, create_outcome, matched, rows_wf, CreateOutcome,
    DeleteOutcome, MatchEntry, MatchLedger, MatchRecord, entries_for,
};
use crate::messages::{in_thread, most_recent, thread, Message, MessageLog, StoreError};
use crate::preference::{PreferenceSet, Profile};
use crate::queue::{build_queue, queue_of};
use crate::registry::{looked_up, Registry};
use crate::wire::{json_quoted, message_event, message_event_text};
use vstd::prelude::*;

verus! {

/// Relies on chrono's `Utc::now` and `DateTime::timestamp_millis`: the wall
/// clock in milliseconds since the Unix epoch. Nothing is assumed of the
/// value. (chrono panics when the system clock reads before 1970.)
#[verifier::external_body]
fn now_millis() -> (r: i64) {
    chrono::Utc::now().timestamp_millis()
}

/// Why a send was refused.
#[derive(Clone, Copy, Debug, PartialEq, Eq, Structural)]
pub enum SendError {
    /// The content is empty.
    EmptyContent,
    /// Sender and receiver are not matched.
    Unauthorized,
    /// The store could not take the message.
    Store(StoreError),
}

/// What a successful send hands to the transport: the stored message, the
/// event text, and the channels to push it to (the receiver's, then the
/// sender's, each where the user is connected).
pub struct Delivery {
    pub message: Message,
    pub event: String,
    pub targets: Vec<u64>,
}

/// The refusal that a send from `sender` to `receiver` meets, if any.
pub open spec fn send_error(
    rows: Seq<MatchRecord>,
    next_id: i64,
    sender: i32,
    receiver: i32,
    content: Seq<char>,
) -> Option<SendError> {
    if content.len() == 0 {
        Some(SendError::EmptyContent)
    } else if !matched(rows, sender, receiver) {
        Some(SendError::Unauthorized)
    } else if next_id == i64::MAX {
        Some(SendError::Store(StoreError::IdsExhausted))
    } else {
        None
    }
}

/// The message that a successful send stores.
pub open spec fn sent_message(
    next_id: i64,
    sender: i32,
    receiver: i32,
    content: String,
    ts: i64,
) -> Message {
    Message { id: next_id, sender_id: sender, receiver_id: receiver, content: content, timestamp: ts }
}

/// The message log after a send.
pub open spec fn log_after_send(
    rows: Seq<MatchRecord>,
    log: Seq<Message>,
    next_id: i64,
    sender: i32,
    receiver: i32,
    content: String,
    ts: i64,
) -> Seq<Message> {
    if send_error(rows, next_id, sender, receiver, content@) is Some {
        log
    } else {
        log.push(sent_message(next_id, sender, receiver, content, ts))
    }
}

/// The match rows and the message log after unmatching {a, b}: the pair's
/// row goes, every message stays.
pub open spec fn after_unmatch(
    rows: Seq<MatchRecord>,
    log: Seq<Message>,
    a: i32,
    b: i32,
) -> (Seq<MatchRecord>, Seq<Message>) {
    (after_delete(rows, a, b), log)
}

/// The channel of a lookup result, as a sequence of zero or one.
pub open spec fn channel_seq(c: Option<u64>) -> Seq<u64> {
    match c {
        Some(x) => seq![x],
        None => Seq::empty(),
    }
}

/// The channels that a message from `sender` to `receiver` is pushed to.
pub open spec fn fan_out(reg: Map<i32, u64>, sender: i32, receiver: i32) -> Seq<u64> {
    channel_seq(looked_up(reg, receiver)) + channel_seq(looked_up(reg, sender))
}

/// The durable tables of this core: matches and messages.
pub struct Store {
    ledger: MatchLedger,
    log: MessageLog,
}

impl Store {
    /// The match rows.
    pub closed spec fn matches(&self) -> Seq<MatchRecord> {
        self.ledger@
    }

    /// The stored messages, in storage order.
    pub closed spec fn messages(&self) -> Seq<Message> {
        self.log@
    }

    /// The id the next stored message gets.
    pub closed spec fn next_id(&self) -> i64 {
        self.log.next_id()
    }

    pub closed spec fn wf(&self) -> bool {
        self.ledger.wf() && self.log.wf()
    }

    pub fn new() -> (r: Store)
        ensures
            r.wf(),
            r.matches() == Seq::<MatchRecord>::empty(),
            r.messages() == Seq::<Message>::empty(),
            r.next_id() == 1,
    {
        Store { ledger: MatchLedger::new(), log: MessageLog::new() }
    }

    /// Whether {a, b} is matched.
    pub fn is_matched(&self, a: i32, b: i32) -> (r: bool)
        requires
            self.wf(),
        ensures
            r == matched(self.matches(), a, b),
    {
        self.ledger.is_matched(a, b)
    }

    /// The number of stored messages.
    pub fn message_count(&self) -> (r: usize)
        ensures
            r == self.messages().len(),
    {
        self.log.len()
    }

    /// Puts back a message read from durable storage; taken only if its id is
    /// above every id given out so far and is not the largest id.
    pub fn restore_message(&mut self, m: Message) -> (r: bool)
        requires
            old(self).wf(),
        ensures
            final(self).wf(),
            final(self).matches() == old(self).matches(),
            r == (old(self).next_id() <= m.id < i64::MAX),
            r ==> final(self).messages() == old(self).messages().push(m) && final(self).next_id()
                == m.id + 1,
            !r ==> final(self).messages() == old(self).messages() && final(self).next_id()
                == old(self).next_id(),
    {
        self.log.restore(m)
    }

    /// Records the match {a, b} at time `ts`; creating it again is success.
    pub fn create_match_at(&mut self, a: i32, b: i32, ts: i64) -> (r: CreateOutcome)
        requires
            old(self).wf(),
        ensures
            final(self).wf(),
            final(self).matches() == after_create(old(self).matches(), a, b, ts),
            matched(final(self).matches(), a, b),
            r == create_outcome(old(self).matches(), a, b),
            final(self).messages() == old(self).messages(),
            final(self).next_id() == old(self).next_id(),
    {
        self.ledger.create(a, b, ts)
    }

    /// Records the match {a, b} now; returns the outcome and the time used.
    pub fn create_match(&mut self, a: i32, b: i32) -> (r: (CreateOutcome, i64))
        requires
            old(self).wf(),
        ensures
            final(self).wf(),
            r.0 == create_outcome(old(self).matches(), a, b),
            final(self).matches() == after_create(old(self).matches(), a, b, r.1),
            matched(final(self).matches(), a, b),
            final(self).messages() == old(self).messages(),
            final(self).next_id() == old(self).next_id(),
    {
        let ts = now_millis();
        (self.create_match_at(a, b, ts), ts)
    }

    /// Removes the match {a, b}. Messages already stored stay.
    pub fn delete_match(&mut self, a: i32, b: i32) -> (r: DeleteOutcome)
        requires
            old(self).wf(),
        ensures
            final(self).wf(),
            (final(self).matches(), final(self).messages()) == after_unmatch(
                old(self).matches(),
                old(self).messages(),
                a,
                b,
            ),
            !matched(final(self).matches(), a, b),
            r == (if matched(old(self).matches(), a, b) {
                DeleteOutcome::Unmatched
            } else {
                DeleteOutcome::NotFound
            }),
            final(self).next_id() == old(self).next_id(),
    {
        self.ledger.delete(a, b)
    }

    /// The matches of `uid`.
    pub fn matches_of(&self, uid: i32) -> (r: Vec<MatchEntry>)
        ensures
            r@ == entries_for(self.matches(), uid),
    {
        self.ledger.entries(uid)
    }

    /// Up to `limit` of the latest messages between `a` and `b`, oldest first.
    /// The match is not checked: history outlives unmatching.
    pub fn history(&self, a: i32, b: i32, limit: usize) -> (r: Vec<Message>)
        ensures
            r@ == most_recent(thread(self.messages(), a, b), limit as nat),
    {
        self.log.history(a, b, limit)
    }

    /// The candidate queue of `requester` from the store's random `sample`.
    pub fn queue(&self, requester: i32, sample: Vec<Profile>, prefs: &PreferenceSet) -> (r: Vec<
        Profile,
    >)
        requires
            self.wf(),
        ensures
            r@ == queue_of(requester, sample@, *prefs, self.matches()),
    {
        build_queue(requester, sample, prefs, &self.ledger)
    }

    /// Removes every message of `uid`, as part of deleting the account.
    pub fn delete_user_messages(&mut self, uid: i32)
        requires
            old(self).wf(),
        ensures
            final(self).wf(),
            final(self).messages() == crate::messages::without_user(old(self).messages(), uid),
            final(self).matches() == old(self).matches(),
    {
        self.log.remove_user(uid);
    }

    /// Sends `content` from `sender` to `receiver` at time `ts`: refuses empty
    /// content, refuses unmatched users before storing anything, stores the
    /// message, and names the live channels to push its event to.
    pub fn send_at(
        &mut self,
        registry: &Registry,
        sender: i32,
        receiver: i32,
        content: String,
        ts: i64,
    ) -> (r: Result<Delivery, SendError>)
        requires
            old(self).wf(),
        ensures
            final(self).wf(),
            final(self).matches() == old(self).matches(),
            final(self).messages() == log_after_send(
                old(self).matches(),
                old(self).messages(),
                old(self).next_id(),
                sender,
                receiver,
                content,
                ts,
            ),
            match r {
                Ok(d) => {
                    &&& send_error(
                        old(self).matches(),
                        old(self).next_id(),
                        sender,
                        receiver,
                        content@,
                    ) is None
                    &&& d.message == sent_message(
                        old(self).next_id(),
                        sender,
                        receiver,
                        content,
                        ts,
                    )
                    &&& d.event@ == message_event_text(d.message, json_quoted(content@))
                    &&& d.targets@ == fan_out(registry@, sender, receiver)
                    &&& final(self).next_id() == old(self).next_id() + 1
                },
                Err(e) => {
                    &&& send_error(
                        old(self).matches(),
                        old(self).next_id(),
                        sender,
                        receiver,
                        content@,
                    ) == Some(e)
                    &&& final(self).next_id() == old(self).next_id()
                },
            },
    {
        if content.as_str().is_empty() {
            return Err(SendError::EmptyContent);
        }
        if !self.ledger.is_matched(sender, receiver) {
            return Err(SendError::Unauthorized);
        }
        let message = match self.log.append(sender, receiver, content, ts) {
            Ok(m) => m,
            Err(e) => {
                return Err(SendError::Store(e));
            },
        };
        let event = message_event(&message);
        let mut targets: Vec<u64> = Vec::new();
        if let Some(c) = registry.lookup(receiver) {
            targets.push(c);
        }
        if let Some(c) = registry.lookup(sender) {
            targets.push(c);
        }
        proof {
            assert(targets@ =~= fan_out(registry@, sender, receiver));
        }
        Ok(Delivery { message, event, targets })
    }

    /// Sends `content` from `sender` to `receiver`, stamped with the clock.
    pub fn send(&mut self, registry: &Registry, sender: i32, receiver: i32, content: String) -> (r:
        Result<Delivery, SendError>)
        requires
            old(self).wf(),
        ensures
            final(self).wf(),
            final(self).matches() == old(self).matches(),
            match r {
                Ok(d) => {
                    &&& send_error(
                        old(self).matches(),
                        old(self).next_id(),
                        sender,
                        receiver,
                        content@,
                    ) is None
                    &&& d.message == sent_message(
                        old(self).next_id(),
                        sender,
                        receiver,
                        content,
                        d.message.timestamp,
                    )
                    &&& final(self).messages() == old(self).messages().push(d.message)
                    &&& d.event@ == message_event_text(d.message, json_quoted(content@))
                    &&& d.targets@ == fan_out(registry@, sender, receiver)
                },
                Err(e) => {
                    &&& send_error(
                        old(self).matches(),
                        old(self).next_id(),
                        sender,
                        receiver,
                        content@,
                    ) == Some(e)
                    &&& final(self).messages() == old(self).messages()
                },
            },
    {
        let ts = now_millis();
        self.send_at(registry, sender, receiver, content, ts)
    }
}

/// Between users with no match a send is refused as unauthorized and the
/// message log stays as it was. (Empty content is refused before the match
/// is looked at, so the content here is not empty.)
pub proof fn law_unmatched_send_refused(
    rows: Seq<MatchRecord>,
    log: Seq<Message>,
    next_id: i64,
    sender: i32,
    receiver: i32,
    content: String,
    ts: i64,
)
    requires
        !matched(rows, sender, receiver),
        content@.len() > 0,
    ensures
        send_error(rows, next_id, sender, receiver, content@) == Some(SendError::Unauthorized),
        log_after_send(rows, log, next_id, sender, receiver, content, ts) == log,
{
}

/// A successful send between matched users adds exactly one message to the
/// log, and it is the latest message of the conversation read from either
/// side with any limit of at least one.
pub proof fn law_sent_message_is_latest(
    rows: Seq<MatchRecord>,
    log: Seq<Message>,
    next_id: i64,
    a: i32,
    b: i32,
    content: String,
    ts: i64,
    limit: nat,
)
    requires
        matched(rows, a, b),
        content@.len() > 0,
        next_id < i64::MAX,
        limit >= 1,
    ensures
        ({
            let after = log_after_send(rows, log, next_id, a, b, content, ts);
            let m = sent_message(next_id, a, b, content, ts);
            &&& after.len() == log.len() + 1
            &&& after.drop_last() == log
            &&& after.last() == m
            &&& most_recent(thread(after, a, b), limit).last() == m
            &&& most_recent(thread(after, b, a), limit).last() == m
        }),
{
    let after = log_after_send(rows, log, next_id, a, b, content, ts);
    let m = sent_message(next_id, a, b, content, ts);
    assert(after == log.push(m));
    assert(after.drop_last() == log);
    assert(in_thread(m, a, b) && in_thread(m, b, a));
    assert(thread(after, a, b) == thread(log, a, b).push(m));
    assert(thread(after, b, a) == thread(log, b, a).push(m));
    lemma_most_recent_last(thread(log, a, b), m, limit);
    lemma_most_recent_last(thread(log, b, a), m, limit);
}

/// The last message of a conversation is the last of its most recent part.
proof fn lemma_most_recent_last(s: Seq<Message>, m: Message, limit: nat)
    requires
        limit >= 1,
    ensures
        most_recent(s.push(m), limit).len() >= 1,
        most_recent(s.push(m), limit).last() == m,
{
    let t = s.push(m);
    if t.len() > limit {
        let r = t.subrange(t.len() - limit, t.len() as int);
        assert(r.last() == t[t.len() - 1]);
    }
}

/// Unmatching a pair keeps every message stored before, and revokes
/// messaging both ways: afterwards the pair is not matched, and a send either
/// way is refused as unauthorized and stores nothing.
pub proof fn law_unmatch_revokes(
    rows: Seq<MatchRecord>,
    log: Seq<Message>,
    next_id: i64,
    a: i32,
    b: i32,
    content: String,
    ts: i64,
)
    requires
        rows_wf(rows),
        content@.len() > 0,
    ensures
        ({
            let (unmatched, kept) = after_unmatch(rows, log, a, b);
            &&& kept == log
            &&& thread(kept, a, b) == thread(log, a, b)
            &&& !matched(unmatched, a, b)
            &&& !matched(unmatched, b, a)
            &&& send_error(unmatched, next_id, a, b, content@) == Some(SendError::Unauthorized)
            &&& send_error(unmatched, next_id, b, a, content@) == Some(SendError::Unauthorized)
            &&& log_after_send(unmatched, log, next_id, a, b, content, ts) == log
            &&& log_after_send(unmatched, log, next_id, b, a, content, ts) == log
        }),
{
    let k = canonical(a, b);
    let pred = |r: MatchRecord| r.key() != k;
    let unmatched = rows.filter(pred);
    broadcast use vstd::seq_lib::group_filter_ensures;

    assert(canonical(b, a) == k);
    if matched(unmatched, a, b) {
        let i = choose|i: int| 0 <= i < unmatched.len() && #[trigger] unmatched[i].key() == k;
        assert(pred(unmatched[i]));
    }
}

} // verus!
