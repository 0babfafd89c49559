//! Per-principal counters that keep a call from being replayed.

use crate::error::LedgerError;
use crate::principal::Principal;
use vstd::prelude::*;

verus! {

/// The nonce a principal must present next: the stored counter, or 0 for a
/// principal the table has never seen.
pub open spec fn expected(nonces: Map<Seq<char>, u64>, principal: Seq<char>) -> u64 {
    if nonces.contains_key(principal) {
        nonces[principal]
    } else {
        0
    }
}

/// The nonces after one successful call by `principal`.
pub open spec fn advanced(nonces: Map<Seq<char>, u64>, principal: Seq<char>) -> Map<
    Seq<char>,
    u64,
>
    recommends
        expected(nonces, principal) < u64::MAX,
{
    nonces.insert(principal, (expected(nonces, principal) + 1) as u64)
}

/// A principal's identifier with its counter.
pub type NoncePair = (Seq<char>, u64);

/// Whether the `i`-th pair belongs to `principal`.
pub open spec fn holds_at(pairs: Seq<NoncePair>, i: int, principal: Seq<char>) -> bool {
    0 <= i < pairs.len() && pairs[i].0 == principal
}

/// No principal occurs in two pairs.
pub open spec fn distinct(pairs: Seq<NoncePair>) -> bool {
    forall|i: int, j: int| 0 <= i < j < pairs.len() ==> pairs[i].0 != pairs[j].0
}

/// The counters as a map: each principal that occurs in a pair, with the
/// counter of a pair it occurs in.
pub open spec fn pairs_map(pairs: Seq<NoncePair>) -> Map<Seq<char>, u64> {
    Map::new(
        |p: Seq<char>| exists|i: int| holds_at(pairs, i, p),
        |p: Seq<char>| pairs[choose|i: int| holds_at(pairs, i, p)].1,
    )
}

/// Where no principal occurs twice, the map gives each principal the
/// counter of its one pair.
pub proof fn pairs_map_holds_each_pair(pairs: Seq<NoncePair>, i: int)
    requires
        distinct(pairs),
        0 <= i < pairs.len(),
    ensures
        pairs_map(pairs).contains_key(pairs[i].0),
        pairs_map(pairs)[pairs[i].0] == pairs[i].1,
        expected(pairs_map(pairs), pairs[i].0) == pairs[i].1,
{
    let p = pairs[i].0;
    assert(holds_at(pairs, i, p));
    let j = choose|j: int| holds_at(pairs, j, p);
    assert(holds_at(pairs, j, p));
    if j < i {
        assert(pairs[j].0 != pairs[i].0);
    } else if i < j {
        assert(pairs[i].0 != pairs[j].0);
    }
}

/// What a sequence of entries says: each principal as its identifier.
pub open spec fn pair_views(entries: Seq<(Principal, u64)>) -> Seq<NoncePair> {
    Seq::new(entries.len(), |i: int| (entries[i].0@, entries[i].1))
}

/// For each principal, the nonce its next state-changing call must carry.
pub struct NonceTable {
    entries: Vec<(Principal, u64)>,
}

impl View for NonceTable {
    type V = Map<Seq<char>, u64>;

    closed spec fn view(&self) -> Map<Seq<char>, u64> {
        pairs_map(pair_views(self.entries@))
    }
}

/// Changing the counter of one pair changes the map at that pair's
/// principal and nowhere else.
proof fn lemma_update(before: Seq<NoncePair>, after: Seq<NoncePair>, i: int, next: u64)
    requires
        distinct(before),
        0 <= i < before.len(),
        after == before.update(i, (before[i].0, next)),
    ensures
        distinct(after),
        pairs_map(after) == pairs_map(before).insert(before[i].0, next),
{
    let p = before[i].0;
    assert forall|q: Seq<char>| pairs_map(after).contains_key(q) == pairs_map(before).insert(
        p,
        next,
    ).contains_key(q) by {
        if exists|k: int| holds_at(after, k, q) {
            let k = choose|k: int| holds_at(after, k, q);
            assert(holds_at(before, k, q));
        }
        if exists|k: int| holds_at(before, k, q) {
            let k = choose|k: int| holds_at(before, k, q);
            assert(holds_at(after, k, q));
        }
        assert(holds_at(after, i, p));
    }
    assert forall|q: Seq<char>| pairs_map(after).contains_key(q) implies pairs_map(after)[q]
        == pairs_map(before).insert(p, next)[q] by {
        let k = choose|k: int| holds_at(after, k, q);
        assert(holds_at(after, k, q));
        pairs_map_holds_each_pair(after, k);
        if k != i {
            pairs_map_holds_each_pair(before, k);
        }
    }
    assert(pairs_map(after) =~= pairs_map(before).insert(p, next));
}

/// Adding a pair for an unseen principal adds that principal to the map
/// and changes nothing else.
proof fn lemma_push(before: Seq<NoncePair>, principal: Seq<char>, next: u64)
    requires
        distinct(before),
        forall|k: int| !holds_at(before, k, principal),
    ensures
        distinct(before.push((principal, next))),
        pairs_map(before.push((principal, next))) == pairs_map(before).insert(principal, next),
{
    let after = before.push((principal, next));
    let n = before.len() as int;
    assert forall|i: int, j: int| 0 <= i < j < after.len() implies after[i].0 != after[j].0 by {
        if j == n {
            assert(!holds_at(before, i, principal));
        }
    }
    assert forall|q: Seq<char>| pairs_map(after).contains_key(q) == pairs_map(before).insert(
        principal,
        next,
    ).contains_key(q) by {
        if exists|k: int| holds_at(after, k, q) {
            let k = choose|k: int| holds_at(after, k, q);
            if k != n {
                assert(holds_at(before, k, q));
            }
        }
        if exists|k: int| holds_at(before, k, q) {
            let k = choose|k: int| holds_at(before, k, q);
            assert(holds_at(after, k, q));
        }
        assert(holds_at(after, n, principal));
    }
    assert forall|q: Seq<char>| pairs_map(after).contains_key(q) implies pairs_map(after)[q]
        == pairs_map(before).insert(principal, next)[q] by {
        let k = choose|k: int| holds_at(after, k, q);
        assert(holds_at(after, k, q));
        pairs_map_holds_each_pair(after, k);
        if k != n {
            pairs_map_holds_each_pair(before, k);
        }
    }
    assert(pairs_map(after) =~= pairs_map(before).insert(principal, next));
}

fn are_distinct(entries: &Vec<(Principal, u64)>) -> (r: bool)
    ensures
        r == distinct(pair_views(entries@)),
{
    let ghost pairs = pair_views(entries@);
    let mut j: usize = 0;
    while j < entries.len()
        invariant
            j <= entries.len(),
            pairs == pair_views(entries@),
            forall|a: int, b: int| 0 <= a < b < j ==> pairs[a].0 != pairs[b].0,
        decreases entries.len() - j,
    {
        let mut i: usize = 0;
        while i < j
            invariant
                i <= j < entries.len(),
                pairs == pair_views(entries@),
                forall|a: int| 0 <= a < i ==> pairs[a].0 != pairs[j as int].0,
            decreases j - i,
        {
            if entries[i].0.same(&entries[j].0) {
                assert(pairs[i as int].0 == pairs[j as int].0);
                return false;
            }
            i += 1;
        }
        j += 1;
    }
    true
}

impl NonceTable {
    /// No principal has two counters.
    pub closed spec fn wf(&self) -> bool {
        distinct(pair_views(self.entries@))
    }

    /// A table in which every principal is still unseen.
    pub fn new() -> (table: NonceTable)
        ensures
            table.wf(),
            table@ == Map::<Seq<char>, u64>::empty(),
    {
        let table = NonceTable { entries: Vec::new() };
        assert(forall|p: Seq<char>, i: int| !holds_at(pair_views(table.entries@), i, p));
        assert(table@ =~= Map::<Seq<char>, u64>::empty());
        table
    }

    /// The table that holds the given counters, if no principal occurs
    /// twice among them.
    pub fn from_entries(entries: Vec<(Principal, u64)>) -> (table: Option<NonceTable>)
        ensures
            table is Some <==> distinct(pair_views(entries@)),
            table matches Some(t) ==> t.wf() && t@ == pairs_map(pair_views(entries@)),
    {
        if are_distinct(&entries) {
            Some(NonceTable { entries })
        } else {
            None
        }
    }

    /// The counters held, one pair for each principal seen.
    pub fn entries(&self) -> (entries: Vec<(Principal, u64)>)
        requires
            self.wf(),
        ensures
            distinct(pair_views(entries@)),
            pairs_map(pair_views(entries@)) == self@,
    {
        let mut entries: Vec<(Principal, u64)> = Vec::new();
        let mut i: usize = 0;
        while i < self.entries.len()
            invariant
                i <= self.entries.len(),
                entries.len() == i,
                forall|k: int|
                    0 <= k < i ==> (#[trigger] entries[k]).0@ == self.entries[k].0@ && entries[k].1
                        == self.entries[k].1,
            decreases self.entries.len() - i,
        {
            entries.push((self.entries[i].0.clone(), self.entries[i].1));
            i += 1;
        }
        assert(pair_views(entries@) =~= pair_views(self.entries@));
        entries
    }

    fn find(&self, principal: &Principal) -> (at: Option<usize>)
        requires
            self.wf(),
        ensures
            at matches Some(i) ==> holds_at(pair_views(self.entries@), i as int, principal@),
            at is None ==> forall|k: int| !holds_at(pair_views(self.entries@), k, principal@),
    {
        let mut i: usize = 0;
        while i < self.entries.len()
            invariant
                i <= self.entries.len(),
                forall|k: int| 0 <= k < i ==> !holds_at(pair_views(self.entries@), k, principal@),
            decreases self.entries.len() - i,
        {
            if self.entries[i].0.same(principal) {
                return Some(i);
            }
            i += 1;
        }
        None
    }

    /// The nonce `principal` must present next; 0 if it was never seen.
    pub fn expected_nonce(&self, principal: &Principal) -> (n: u64)
        requires
            self.wf(),
        ensures
            n == expected(self@, principal@),
    {
        match self.find(principal) {
            Some(i) => {
                proof {
                    pairs_map_holds_each_pair(pair_views(self.entries@), i as int);
                }
                self.entries[i].1
            },
            None => 0,
        }
    }

    /// Accepts `supplied` if it is the expected nonce. Changes nothing.
    pub fn require_nonce(&self, principal: &Principal, supplied: u64) -> (r: Result<
        (),
        LedgerError,
    >)
        requires
            self.wf(),
        ensures
            r == if supplied == expected(self@, principal@) {
                Ok::<(), LedgerError>(())
            } else {
                Err::<(), LedgerError>(LedgerError::ReplayRejected)
            },
    {
        if supplied == self.expected_nonce(principal) {
            Ok(())
        } else {
            Err(LedgerError::ReplayRejected)
        }
    }

    /// Moves the principal's counter on by one. Fails, changing nothing, if
    /// the counter already holds the largest value.
    pub fn advance_nonce(&mut self, principal: &Principal) -> (r: Result<(), LedgerError>)
        requires
            old(self).wf(),
        ensures
            final(self).wf(),
            expected(old(self)@, principal@) < u64::MAX ==> r == Ok::<(), LedgerError>(())
                && final(self)@ == advanced(old(self)@, principal@),
            expected(old(self)@, principal@) == u64::MAX ==> r == Err::<(), LedgerError>(
                LedgerError::ArithmeticOverflow,
            ) && final(self)@ == old(self)@,
    {
        let ghost before = pair_views(self.entries@);
        match self.find(principal) {
            Some(i) => {
                proof {
                    pairs_map_holds_each_pair(before, i as int);
                }
                let current: u64 = self.entries[i].1;
                if current == u64::MAX {
                    return Err(LedgerError::ArithmeticOverflow);
                }
                self.entries[i] = (principal.clone(), current + 1);
                proof {
                    let after = pair_views(self.entries@);
                    assert(after =~= before.update(i as int, (before[i as int].0, (current + 1) as u64)));
                    lemma_update(before, after, i as int, (current + 1) as u64);
                }
                Ok(())
            },
            None => {
                self.entries.push((principal.clone(), 1));
                proof {
                    let after = pair_views(self.entries@);
                    assert(after =~= before.push((principal@, 1u64)));
                    lemma_push(before, principal@, 1);
                }
                Ok(())
            },
        }
    }
}

} // verus!
