//! The candidate queue: from a randomly ordered sample of other users'
//! profiles, those that the requester's preferences accept and that the
//! requester is not matched with yet, in sample order, at most `QUEUE_LIMIT`.
use crate::ledger::{matched, MatchLedger, MatchRecord};
use crate::preference::{meets, passes, PreferenceSet, Profile};
use vstd::prelude::*;

verus! {

/// How many profiles of the sample are considered.
pub const SAMPLE_SIZE: usize = 100;

/// How many candidates a queue holds at most.
pub const QUEUE_LIMIT: usize = 20;

/// Whether `p` may be shown to `requester`.
pub open spec fn eligible(
    requester: i32,
    p: Profile,
    prefs: PreferenceSet,
    rows: Seq<MatchRecord>,
) -> bool {
    &&& p.user_id != requester
    &&& !matched(rows, requester, p.user_id)
    &&& meets(p, prefs)
}

/// The eligible profiles of `sample`, in sample order.
pub open spec fn survivors(
    requester: i32,
    sample: Seq<Profile>,
    prefs: PreferenceSet,
    rows: Seq<MatchRecord>,
) -> Seq<Profile>
    decreases sample.len(),
{
    if sample.len() == 0 {
        Seq::empty()
    } else if eligible(requester, sample.last(), prefs, rows) {
        survivors(requester, sample.drop_last(), prefs, rows).push(sample.last())
    } else {
        survivors(requester, sample.drop_last(), prefs, rows)
    }
}

/// The first `n` elements of `s`, or all of them where there are fewer.
pub open spec fn at_most(s: Seq<Profile>, n: nat) -> Seq<Profile> {
    if s.len() <= n {
        s
    } else {
        s.take(n as int)
    }
}

/// The queue that `requester` gets from `sample`.
pub open spec fn queue_of(
    requester: i32,
    sample: Seq<Profile>,
    prefs: PreferenceSet,
    rows: Seq<MatchRecord>,
) -> Seq<Profile> {
    at_most(
        survivors(requester, at_most(sample, SAMPLE_SIZE as nat), prefs, rows),
        QUEUE_LIMIT as nat,
    )
}

/// Every survivor is eligible.
pub proof fn lemma_survivors_eligible(
    requester: i32,
    sample: Seq<Profile>,
    prefs: PreferenceSet,
    rows: Seq<MatchRecord>,
)
    ensures
        forall|i: int|
            0 <= i < survivors(requester, sample, prefs, rows).len() ==> eligible(
                requester,
                #[trigger] survivors(requester, sample, prefs, rows)[i],
                prefs,
                rows,
            ),
    decreases sample.len(),
{
    if sample.len() > 0 {
        lemma_survivors_eligible(requester, sample.drop_last(), prefs, rows);
        let s = survivors(requester, sample, prefs, rows);
        let front = survivors(requester, sample.drop_last(), prefs, rows);
        assert forall|i: int| 0 <= i < s.len() implies eligible(requester, #[trigger] s[i], prefs, rows) by {
            if i < front.len() {
                assert(s[i] == front[i]);
            }
        }
    }
}

/// A queue never holds the requester, nor a user the requester is matched
/// with, nor a profile the preferences reject, and never more than
/// `QUEUE_LIMIT` profiles, whatever the sample.
pub proof fn law_queue_bounded(
    requester: i32,
    sample: Seq<Profile>,
    prefs: PreferenceSet,
    rows: Seq<MatchRecord>,
)
    ensures
        queue_of(requester, sample, prefs, rows).len() <= QUEUE_LIMIT,
        forall|i: int|
            0 <= i < queue_of(requester, sample, prefs, rows).len() ==> {
                let p = #[trigger] queue_of(requester, sample, prefs, rows)[i];
                &&& p.user_id != requester
                &&& !matched(rows, requester, p.user_id)
                &&& meets(p, prefs)
            },
{
    let s = survivors(requester, at_most(sample, SAMPLE_SIZE as nat), prefs, rows);
    lemma_survivors_eligible(requester, at_most(sample, SAMPLE_SIZE as nat), prefs, rows);
    let q = queue_of(requester, sample, prefs, rows);
    assert forall|i: int| 0 <= i < q.len() implies #[trigger] eligible(requester, q[i], prefs, rows) by {
        assert(q[i] == s[i]);
    }
}

/// The queue for `requester` from `sample`, which the store drew in random
/// order from the other users' profiles.
pub fn build_queue(
    requester: i32,
    sample: Vec<Profile>,
    prefs: &PreferenceSet,
    ledger: &MatchLedger,
) -> (r: Vec<Profile>)
    requires
        ledger.wf(),
    ensures
        r@ == queue_of(requester, sample@, *prefs, ledger@),
        r@.len() <= QUEUE_LIMIT,
        forall|i: int| 0 <= i < r@.len() ==> (#[trigger] r@[i]).user_id != requester,
{
    let ghost all = sample@;
    let ghost considered = at_most(all, SAMPLE_SIZE as nat);
    let mut rest = sample;
    let n: usize = if rest.len() <= SAMPLE_SIZE {
        rest.len()
    } else {
        SAMPLE_SIZE
    };
    assert(considered == all.take(n as int));
    let mut out: Vec<Profile> = Vec::new();
    let mut k: usize = 0;
    while k < n
        invariant
            k <= n <= all.len(),
            considered == all.take(n as int),
            rest@ == all.subrange(k as int, all.len() as int),
            ledger.wf(),
            out@ == at_most(
                survivors(requester, all.take(k as int), *prefs, ledger@),
                QUEUE_LIMIT as nat,
            ),
        decreases n - k,
    {
        let p = rest.remove(0);
        let ghost before = survivors(requester, all.take(k as int), *prefs, ledger@);
        proof {
            assert(p == all[k as int]);
            assert(all.take(k + 1).drop_last() == all.take(k as int));
            assert(all.take(k + 1).last() == p);
            assert(rest@ == all.subrange(k + 1, all.len() as int));
        }
        let keep = p.user_id != requester && !ledger.is_matched(requester, p.user_id) && passes(
            &p,
            prefs,
        );
        if keep && out.len() < QUEUE_LIMIT {
            proof {
                assert(before.len() < QUEUE_LIMIT);
            }
            out.push(p);
        } else {
            proof {
                if keep {
                    assert(before.push(p).take(QUEUE_LIMIT as int) == before.take(
                        QUEUE_LIMIT as int,
                    ));
                }
            }
        }
        k = k + 1;
    }
    proof {
        law_queue_bounded(requester, all, *prefs, ledger@);
    }
    out
}

} // verus!
