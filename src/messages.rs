//! The message log: immutable messages in storage order, and the history of a
//! conversation between two users.
use crate::text::{parse_i64, parsed_i64};
use vstd::prelude::*;

verus! {

/// The number of messages a history request returns when it names no limit.
pub const DEFAULT_HISTORY_LIMIT: usize = 100;

/// The history limit that a parsed request value asks for: the default when
/// there is none, no limit when it is negative.
pub open spec fn limit_value(p: Option<i64>) -> usize {
    match p {
        None => DEFAULT_HISTORY_LIMIT,
        Some(n) => if n < 0 || n > usize::MAX {
            usize::MAX
        } else {
            n as usize
        },
    }
}

/// The history limit for the parsed request value `p`.
pub fn limit_from(p: Option<i64>) -> (r: usize)
    ensures
        r == limit_value(p),
{
    match p {
        None => DEFAULT_HISTORY_LIMIT,
        Some(n) => {
            if n < 0 || n as u64 > usize::MAX as u64 {
                usize::MAX
            } else {
                n as usize
            }
        },
    }
}

/// The history limit for the request parameter `param`, if it was given; a
/// value that does not parse as an integer counts as none.
pub fn history_limit(param: Option<&str>) -> (r: usize)
    ensures
        r == limit_value(
            match param {
                Some(s) => parsed_i64(s@),
                None => None,
            },
        ),
{
    match param {
        Some(s) => limit_from(parse_i64(s)),
        None => limit_from(None),
    }
}

/// A stored message.
#[derive(Debug)]
pub struct Message {
    pub id: i64,
    pub sender_id: i32,
    pub receiver_id: i32,
    pub content: String,
    pub timestamp: i64,
}

impl Message {
    /// A copy of this message.
    pub fn duplicate(&self) -> (r: Message)
        ensures
            r == *self,
    {
        Message {
            id: self.id,
            sender_id: self.sender_id,
            receiver_id: self.receiver_id,
            content: self.content.clone(),
            timestamp: self.timestamp,
        }
    }
}

/// Whether `m` was sent between `a` and `b`, in either direction.
pub open spec fn in_thread(m: Message, a: i32, b: i32) -> bool {
    (m.sender_id == a && m.receiver_id == b) || (m.sender_id == b && m.receiver_id == a)
}

/// The messages of `rows` between `a` and `b`, in storage order.
pub open spec fn thread(rows: Seq<Message>, a: i32, b: i32) -> Seq<Message>
    decreases rows.len(),
{
    if rows.len() == 0 {
        Seq::empty()
    } else if in_thread(rows.last(), a, b) {
        thread(rows.drop_last(), a, b).push(rows.last())
    } else {
        thread(rows.drop_last(), a, b)
    }
}

/// The last `limit` elements of `s`, or all of them where there are fewer.
pub open spec fn most_recent(s: Seq<Message>, limit: nat) -> Seq<Message> {
    if s.len() <= limit {
        s
    } else {
        s.subrange(s.len() - limit, s.len() as int)
    }
}

/// Whether `m` names `uid` as sender or receiver.
pub open spec fn involves(m: Message, uid: i32) -> bool {
    m.sender_id == uid || m.receiver_id == uid
}

/// The messages of `rows` that do not involve `uid`, in storage order.
pub open spec fn without_user(rows: Seq<Message>, uid: i32) -> Seq<Message>
    decreases rows.len(),
{
    if rows.len() == 0 {
        Seq::empty()
    } else if involves(rows.last(), uid) {
        without_user(rows.drop_last(), uid)
    } else {
        without_user(rows.drop_last(), uid).push(rows.last())
    }
}

/// Ids rise strictly in storage order and stay below the next id to give.
pub open spec fn ids_wf(rows: Seq<Message>, next_id: i64) -> bool {
    &&& forall|i: int, j: int| 0 <= i < j < rows.len() ==> #[trigger] rows[i].id < #[trigger] rows[j].id
    &&& forall|i: int| 0 <= i < rows.len() ==> #[trigger] rows[i].id < next_id
    &&& next_id >= 1
}

/// Why a message could not be stored.
#[derive(Clone, Copy, Debug, PartialEq, Eq, Structural)]
pub enum StoreError {
    /// Every message id has been given out.
    IdsExhausted,
}

/// All messages, in storage order.
pub struct MessageLog {
    rows: Vec<Message>,
    next_id: i64,
}

impl View for MessageLog {
    type V = Seq<Message>;

    closed spec fn view(&self) -> Seq<Message> {
        self.rows@
    }
}

impl MessageLog {
    /// The id the next stored message gets.
    pub closed spec fn next_id(&self) -> i64 {
        self.next_id
    }

    pub open spec fn wf(&self) -> bool {
        ids_wf(self@, self.next_id())
    }

    pub fn new() -> (r: MessageLog)
        ensures
            r.wf(),
            r@ == Seq::<Message>::empty(),
            r.next_id() == 1,
    {
        MessageLog { rows: Vec::new(), next_id: 1 }
    }

    /// The number of stored messages.
    pub fn len(&self) -> (r: usize)
        ensures
            r == self@.len(),
    {
        self.rows.len()
    }

    /// Stores a message from `sender` to `receiver` at time `ts` under the next
    /// id, and returns a copy of it.
    pub fn append(&mut self, sender: i32, receiver: i32, content: String, ts: i64) -> (r: Result<
        Message,
        StoreError,
    >)
        requires
            old(self).wf(),
        ensures
            final(self).wf(),
            match r {
                Ok(m) => {
                    &&& old(self).next_id() < i64::MAX
                    &&& m == (Message {
                        id: old(self).next_id(),
                        sender_id: sender,
                        receiver_id: receiver,
                        content: content,
                        timestamp: ts,
                    })
                    &&& final(self)@ == old(self)@.push(m)
                    &&& final(self).next_id() == old(self).next_id() + 1
                },
                Err(e) => {
                    &&& old(self).next_id() == i64::MAX
                    &&& e == StoreError::IdsExhausted
                    &&& final(self)@ == old(self)@
                    &&& final(self).next_id() == old(self).next_id()
                },
            },
    {
        if self.next_id == i64::MAX {
            return Err(StoreError::IdsExhausted);
        }
        let m = Message {
            id: self.next_id,
            sender_id: sender,
            receiver_id: receiver,
            content,
            timestamp: ts,
        };
        let copy = m.duplicate();
        self.rows.push(m);
        self.next_id = self.next_id + 1;
        Ok(copy)
    }

    /// Puts back a message read from durable storage. It is taken only if its id
    /// is above every id given out so far and is not the largest id.
    pub fn restore(&mut self, m: Message) -> (r: bool)
        requires
            old(self).wf(),
        ensures
            final(self).wf(),
            r == (old(self).next_id() <= m.id < i64::MAX),
            r ==> final(self)@ == old(self)@.push(m) && final(self).next_id() == m.id + 1,
            !r ==> final(self)@ == old(self)@ && final(self).next_id() == old(self).next_id(),
    {
        if m.id < self.next_id || m.id == i64::MAX {
            return false;
        }
        let id = m.id;
        self.rows.push(m);
        self.next_id = id + 1;
        true
    }

    /// Up to `limit` of the most recent messages between `a` and `b`, in either
    /// direction, oldest first.
    pub fn history(&self, a: i32, b: i32, limit: usize) -> (r: Vec<Message>)
        ensures
            r@ == most_recent(thread(self@, a, b), limit as nat),
    {
        let mut all: Vec<Message> = Vec::new();
        let mut i: usize = 0;
        while i < self.rows.len()
            invariant
                i <= self@.len(),
                all@ == thread(self@.subrange(0, i as int), a, b),
            decreases self@.len() - i,
        {
            let m = &self.rows[i];
            proof {
                let next = self@.subrange(0, i + 1);
                assert(next.drop_last() == self@.subrange(0, i as int));
                assert(next.last() == *m);
            }
            if (m.sender_id == a && m.receiver_id == b) || (m.sender_id == b && m.receiver_id
                == a) {
                all.push(m.duplicate());
            }
            i = i + 1;
        }
        assert(self@.subrange(0, self@.len() as int) == self@);
        let n = all.len();
        let start: usize = if n <= limit {
            0
        } else {
            n - limit
        };
        let mut out: Vec<Message> = Vec::new();
        let mut j: usize = start;
        while j < n
            invariant
                start <= j <= n,
                n == all@.len(),
                out@ == all@.subrange(start as int, j as int),
            decreases n - j,
        {
            out.push(all[j].duplicate());
            proof {
                assert(all@.subrange(start as int, j + 1) == all@.subrange(start as int, j as int).push(
                    all@[j as int],
                ));
            }
            j = j + 1;
        }
        assert(all@.subrange(0, n as int) == all@);
        out
    }

    /// Removes every message that `uid` sent or received.
    pub fn remove_user(&mut self, uid: i32)
        requires
            old(self).wf(),
        ensures
            final(self).wf(),
            final(self)@ == without_user(old(self)@, uid),
            final(self).next_id() == old(self).next_id(),
    {
        let ghost before = self@;
        let mut kept: Vec<Message> = Vec::new();
        let mut i: usize = 0;
        while i < self.rows.len()
            invariant
                i <= before.len(),
                self@ == before,
                ids_wf(before, self.next_id()),
                kept@ == without_user(before.subrange(0, i as int), uid),
                forall|x: int|
                    0 <= x < kept@.len() ==> exists|y: int|
                        0 <= y < i && #[trigger] kept@[x].id == #[trigger] before[y].id,
                forall|x: int, y: int|
                    0 <= x < y < kept@.len() ==> #[trigger] kept@[x].id < #[trigger] kept@[y].id,
                forall|x: int| 0 <= x < kept@.len() && i < before.len() ==> #[trigger] kept@[x].id < before[i as int].id,
            decreases before.len() - i,
        {
            let m = &self.rows[i];
            proof {
                let next = before.subrange(0, i + 1);
                assert(next.drop_last() == before.subrange(0, i as int));
                assert(next.last() == *m);
            }
            if m.sender_id != uid && m.receiver_id != uid {
                kept.push(m.duplicate());
            }
            proof {
                if i + 1 < before.len() {
                    assert forall|x: int| 0 <= x < kept@.len() implies #[trigger] kept@[x].id
                        < before[i + 1].id by {
                        let y = choose|y: int| 0 <= y < i + 1 && kept@[x].id == before[y].id;
                        assert(before[y].id < before[i + 1].id);
                    }
                }
            }
            i = i + 1;
        }
        assert(before.subrange(0, before.len() as int) == before);
        self.rows = kept;
    }
}

} // verus!
