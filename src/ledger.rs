//! The match relation: an unordered pair of users, stored once under its
//! canonical key (lower identity first).
use vstd::prelude::*;

verus! {

/// The canonical key of the unordered pair {a, b}: the lower identity first.
pub open spec fn canonical(a: i32, b: i32) -> (i32, i32) {
    if a < b {
        (a, b)
    } else {
        (b, a)
    }
}

/// Orders the pair {a, b} numerically ascending.
pub fn canonicalize(a: i32, b: i32) -> (r: (i32, i32))
    ensures
        r == canonical(a, b),
{
    if a < b {
        (a, b)
    } else {
        (b, a)
    }
}

/// The canonical key does not depend on the order in which the pair is named.
pub proof fn law_canonical_symmetric(a: i32, b: i32)
    ensures
        canonical(a, b) == canonical(b, a),
        canonical(a, b).0 <= canonical(a, b).1,
{
}

/// One stored match: the canonical pair and the time it was created.
#[derive(Clone, Copy, Debug, PartialEq, Eq, Structural)]
pub struct MatchRecord {
    pub lo: i32,
    pub hi: i32,
    pub timestamp: i64,
}

impl MatchRecord {
    pub open spec fn key(self) -> (i32, i32) {
        (self.lo, self.hi)
    }
}

/// Whether a row of `rows` holds the canonical key of {a, b}.
pub open spec fn matched(rows: Seq<MatchRecord>, a: i32, b: i32) -> bool {
    exists|i: int| 0 <= i < rows.len() && #[trigger] rows[i].key() == canonical(a, b)
}

/// Exactly one row of `rows` holds the key `k`.
pub open spec fn one_row_for(rows: Seq<MatchRecord>, k: (i32, i32)) -> bool {
    &&& exists|i: int| 0 <= i < rows.len() && #[trigger] rows[i].key() == k
    &&& forall|i: int, j: int|
        0 <= i < rows.len() && 0 <= j < rows.len() && #[trigger] rows[i].key() == k
            && #[trigger] rows[j].key() == k ==> i == j
}

/// Every row is stored canonically and no two rows share a pair.
pub open spec fn rows_wf(rows: Seq<MatchRecord>) -> bool {
    &&& forall|i: int| 0 <= i < rows.len() ==> #[trigger] rows[i].lo <= rows[i].hi
    &&& forall|i: int, j: int|
        0 <= i < rows.len() && 0 <= j < rows.len() && i != j ==> #[trigger] rows[i].key()
            != #[trigger] rows[j].key()
}

/// What creating the match {a, b} at time `ts` leaves in the table.
pub open spec fn after_create(rows: Seq<MatchRecord>, a: i32, b: i32, ts: i64) -> Seq<
    MatchRecord,
> {
    if matched(rows, a, b) {
        rows
    } else {
        rows.push(MatchRecord { lo: canonical(a, b).0, hi: canonical(a, b).1, timestamp: ts })
    }
}

/// What deleting the match {a, b} leaves in the table.
pub open spec fn after_delete(rows: Seq<MatchRecord>, a: i32, b: i32) -> Seq<MatchRecord> {
    rows.filter(|r: MatchRecord| r.key() != canonical(a, b))
}

/// How `create` reports on rows `rows` for the pair {a, b}.
pub open spec fn create_outcome(rows: Seq<MatchRecord>, a: i32, b: i32) -> CreateOutcome {
    if matched(rows, a, b) {
        CreateOutcome::AlreadyExists
    } else {
        CreateOutcome::Created
    }
}

/// One match seen from one of its two users.
#[derive(Clone, Copy, Debug, PartialEq, Eq, Structural)]
pub struct MatchEntry {
    pub user_id: i32,
    pub matched_user_id: i32,
    pub timestamp: i64,
}

/// The matches of `uid` in `rows`, in row order, each naming the other user.
pub open spec fn entries_for(rows: Seq<MatchRecord>, uid: i32) -> Seq<MatchEntry>
    decreases rows.len(),
{
    if rows.len() == 0 {
        Seq::empty()
    } else {
        let front = entries_for(rows.drop_last(), uid);
        let r = rows.last();
        if r.lo == uid {
            front.push(MatchEntry { user_id: uid, matched_user_id: r.hi, timestamp: r.timestamp })
        } else if r.hi == uid {
            front.push(MatchEntry { user_id: uid, matched_user_id: r.lo, timestamp: r.timestamp })
        } else {
            front
        }
    }
}

/// How a create request ended; both are success.
#[derive(Clone, Copy, Debug, PartialEq, Eq, Structural)]
pub enum CreateOutcome {
    Created,
    AlreadyExists,
}

/// How a delete request ended; callers that only want the pair absent treat
/// both alike.
#[derive(Clone, Copy, Debug, PartialEq, Eq, Structural)]
pub enum DeleteOutcome {
    Unmatched,
    NotFound,
}

/// The table of matches.
pub struct MatchLedger {
    rows: Vec<MatchRecord>,
}

impl View for MatchLedger {
    type V = Seq<MatchRecord>;

    closed spec fn view(&self) -> Seq<MatchRecord> {
        self.rows@
    }
}

impl MatchLedger {
    pub open spec fn wf(&self) -> bool {
        rows_wf(self@)
    }

    pub fn new() -> (r: MatchLedger)
        ensures
            r.wf(),
            r@ == Seq::<MatchRecord>::empty(),
    {
        MatchLedger { rows: Vec::new() }
    }

    fn position(&self, a: i32, b: i32) -> (r: Option<usize>)
        requires
            self.wf(),
        ensures
            match r {
                Some(i) => i < self@.len() && self@[i as int].key() == canonical(a, b),
                None => !matched(self@, a, b),
            },
    {
        let k = canonicalize(a, b);
        let mut i: usize = 0;
        while i < self.rows.len()
            invariant
                i <= self@.len(),
                k == canonical(a, b),
                forall|j: int| 0 <= j < i ==> #[trigger] self@[j].key() != k,
            decreases self@.len() - i,
        {
            let row = self.rows[i];
            assert(self@[i as int] == row);
            if row.lo == k.0 && row.hi == k.1 {
                assert(row.key() == k);
                return Some(i);
            }
            i = i + 1;
        }
        None
    }

    /// Whether {a, b} is matched.
    pub fn is_matched(&self, a: i32, b: i32) -> (r: bool)
        requires
            self.wf(),
        ensures
            r == matched(self@, a, b),
    {
        self.position(a, b).is_some()
    }

    /// Records the match {a, b} at time `ts`; an existing match is left as it
    /// is and reported as such.
    pub fn create(&mut self, a: i32, b: i32, ts: i64) -> (r: CreateOutcome)
        requires
            old(self).wf(),
        ensures
            final(self).wf(),
            final(self)@ == after_create(old(self)@, a, b, ts),
            matched(final(self)@, a, b),
            r == create_outcome(old(self)@, a, b),
    {
        match self.position(a, b) {
            Some(_) => CreateOutcome::AlreadyExists,
            None => {
                let k = canonicalize(a, b);
                self.rows.push(MatchRecord { lo: k.0, hi: k.1, timestamp: ts });
                proof {
                    let s = self@;
                    assert(s[s.len() - 1].key() == k);
                    assert forall|i: int, j: int|
                        0 <= i < s.len() && 0 <= j < s.len() && i != j implies #[trigger] s[i].key()
                        != #[trigger] s[j].key() by {
                        if i == s.len() - 1 {
                            assert(s[j] == old(self)@[j]);
                        } else if j == s.len() - 1 {
                            assert(s[i] == old(self)@[i]);
                        }
                    }
                }
                CreateOutcome::Created
            },
        }
    }

    /// Removes the match {a, b} if it is there.
    pub fn delete(&mut self, a: i32, b: i32) -> (r: DeleteOutcome)
        requires
            old(self).wf(),
        ensures
            final(self).wf(),
            final(self)@ == after_delete(old(self)@, a, b),
            !matched(final(self)@, a, b),
            r == (if matched(old(self)@, a, b) {
                DeleteOutcome::Unmatched
            } else {
                DeleteOutcome::NotFound
            }),
    {
        match self.position(a, b) {
            Some(i) => {
                self.rows.remove(i);
                proof {
                    lemma_remove_unique(old(self)@, i as int, canonical(a, b));
                }
                DeleteOutcome::Unmatched
            },
            None => {
                proof {
                    lemma_filter_keeps_all(old(self)@, canonical(a, b));
                }
                DeleteOutcome::NotFound
            },
        }
    }

    /// The matches of `uid`, each naming the other user and when it was made.
    pub fn entries(&self, uid: i32) -> (r: Vec<MatchEntry>)
        ensures
            r@ == entries_for(self@, uid),
    {
        let mut out: Vec<MatchEntry> = Vec::new();
        let mut i: usize = 0;
        while i < self.rows.len()
            invariant
                i <= self@.len(),
                out@ == entries_for(self@.subrange(0, i as int), uid),
            decreases self@.len() - i,
        {
            let row = self.rows[i];
            proof {
                let next = self@.subrange(0, i + 1);
                assert(next.drop_last() == self@.subrange(0, i as int));
                assert(next.last() == row);
            }
            if row.lo == uid {
                out.push(MatchEntry { user_id: uid, matched_user_id: row.hi, timestamp: row.timestamp });
            } else if row.hi == uid {
                out.push(MatchEntry { user_id: uid, matched_user_id: row.lo, timestamp: row.timestamp });
            }
            i = i + 1;
        }
        assert(self@.subrange(0, self@.len() as int) == self@);
        out
    }
}

/// Creating the match {a, b} twice leaves exactly one row for the pair: the
/// second request changes nothing and reports that the match already exists,
/// which is success as much as the first.
pub proof fn law_create_twice(rows: Seq<MatchRecord>, a: i32, b: i32, t1: i64, t2: i64)
    requires
        rows_wf(rows),
    ensures
        ({
            let once = after_create(rows, a, b, t1);
            let twice = after_create(once, a, b, t2);
            &&& twice == once
            &&& rows_wf(twice)
            &&& one_row_for(twice, canonical(a, b))
            &&& create_outcome(once, a, b) == CreateOutcome::AlreadyExists
        }),
{
    let k = canonical(a, b);
    let once = after_create(rows, a, b, t1);
    if !matched(rows, a, b) {
        let n = rows.len() as int;
        assert(once[n].key() == k);
        assert forall|i: int, j: int|
            0 <= i < once.len() && 0 <= j < once.len() && i != j implies #[trigger] once[i].key()
            != #[trigger] once[j].key() by {
            if i == n {
                assert(once[j] == rows[j]);
            } else if j == n {
                assert(once[i] == rows[i]);
            }
        }
        assert forall|i: int| 0 <= i < once.len() implies #[trigger] once[i].lo <= once[i].hi by {
            if i < n {
                assert(once[i] == rows[i]);
            }
        }
    }
    assert(matched(once, a, b));
}

/// Filtering out a key that no row holds leaves the rows as they are.
proof fn lemma_filter_keeps_all(rows: Seq<MatchRecord>, k: (i32, i32))
    requires
        forall|i: int| 0 <= i < rows.len() ==> #[trigger] rows[i].key() != k,
    ensures
        rows.filter(|r: MatchRecord| r.key() != k) == rows,
    decreases rows.len(),
{
    reveal(Seq::filter);
    if rows.len() > 0 {
        let front = rows.drop_last();
        assert forall|i: int| 0 <= i < front.len() implies #[trigger] front[i].key() != k by {
            assert(front[i] == rows[i]);
        }
        lemma_filter_keeps_all(front, k);
        assert(rows.last().key() != k);
        assert(front.push(rows.last()) == rows);
    }
}

/// Removing the one row with key `k` from well-formed rows is filtering `k` out.
proof fn lemma_remove_unique(rows: Seq<MatchRecord>, i: int, k: (i32, i32))
    requires
        rows_wf(rows),
        0 <= i < rows.len(),
        rows[i].key() == k,
    ensures
        rows.remove(i) == rows.filter(|r: MatchRecord| r.key() != k),
        rows_wf(rows.remove(i)),
        forall|j: int| 0 <= j < rows.remove(i).len() ==> #[trigger] rows.remove(i)[j].key() != k,
    decreases rows.len(),
{
    let rest = rows.remove(i);
    assert forall|j: int| 0 <= j < rest.len() implies #[trigger] rest[j].key() != k by {
        if j < i {
            assert(rest[j] == rows[j]);
        } else {
            assert(rest[j] == rows[j + 1]);
        }
    }
    assert forall|x: int, y: int|
        0 <= x < rest.len() && 0 <= y < rest.len() && x != y implies #[trigger] rest[x].key()
        != #[trigger] rest[y].key() by {
        let xo = if x < i { x } else { x + 1 };
        let yo = if y < i { y } else { y + 1 };
        assert(rest[x] == rows[xo]);
        assert(rest[y] == rows[yo]);
    }
    reveal(Seq::filter);
    if i == rows.len() - 1 {
        let front = rows.drop_last();
        assert(rest == front);
        lemma_filter_keeps_all(front, k);
    } else {
        let front = rows.drop_last();
        assert(rows.last() == rows[rows.len() - 1]);
        assert(rows.last().key() != k);
        assert forall|x: int, y: int|
            0 <= x < front.len() && 0 <= y < front.len() && x != y implies #[trigger] front[x].key()
            != #[trigger] front[y].key() by {
            assert(front[x] == rows[x]);
            assert(front[y] == rows[y]);
        }
        assert forall|x: int| 0 <= x < front.len() implies #[trigger] front[x].lo <= front[x].hi by {
            assert(front[x] == rows[x]);
        }
        lemma_remove_unique(front, i, k);
        assert(front.remove(i).push(rows.last()) == rest);
    }
}

} // verus!
