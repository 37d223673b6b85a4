//! De-duplication of retransmitted events within a session.
//!
//! The window keeps the identifiers it saw in order of arrival. When it is full
//! its oldest quarter leaves, so the most recent three quarters are always
//! remembered and memory stays bounded.
use crate::keys;
use std::collections::HashSet;
use vstd::prelude::*;

verus! {

broadcast use vstd::std_specs::hash::group_hash_axioms;

/// Most identifiers that a window holds.
pub const DEDUP_CAPACITY: usize = 65_536;

/// How many identifiers leave a full window.
pub const DEDUP_EVICTED: usize = 16_384;

/// The number that a byte string denotes, high byte first.
pub open spec fn number(id: Seq<u8>) -> nat
    decreases id.len(),
{
    if id.len() == 0 {
        0
    } else {
        number(id.drop_last()) * 256 + id.last() as nat
    }
}

/// Identifiers of one length are told apart by their numbers.
pub proof fn law_numbers_tell_ids_apart(a: Seq<u8>, b: Seq<u8>)
    requires
        a.len() == b.len(),
        number(a) == number(b),
    ensures
        a == b,
    decreases a.len(),
{
    if a.len() > 0 {
        assert(number(a) % 256 == a.last());
        assert(number(b) % 256 == b.last());
        assert(number(a) / 256 == number(a.drop_last()));
        assert(number(b) / 256 == number(b.drop_last()));
        law_numbers_tell_ids_apart(a.drop_last(), b.drop_last());
        assert(a =~= a.drop_last().push(a.last()));
        assert(b =~= b.drop_last().push(b.last()));
    } else {
        assert(a =~= b);
    }
}

proof fn lemma_pow_bound(i: nat)
    requires
        i <= 16,
    ensures
        keys::pow256(i) <= 0x1_0000_0000_0000_0000_0000_0000_0000_0000,
{
    reveal_with_fuel(keys::pow256, 17);
}

/// The number of a sixteen-byte identifier.
pub fn id_number(id: &[u8; 16]) -> (n: u128)
    ensures
        n == number(id@),
{
    let mut n: u128 = 0;
    let mut i: usize = 0;
    assert(id@.take(0) =~= Seq::empty());
    while i < 16
        invariant
            i <= 16,
            n == number(id@.take(i as int)),
            n < keys::pow256(i as nat),
        decreases 16 - i,
    {
        proof {
            lemma_pow_bound((i + 1) as nat);
            assert(id@.take(i + 1).drop_last() =~= id@.take(i as int));
        }
        n = n * 256 + id[i] as u128;
        i = i + 1;
    }
    assert(id@.take(16) =~= id@);
    n
}

/// The identifiers recently seen.
pub struct DedupWindow {
    seen: HashSet<u128>,
    order: Vec<u128>,
}

impl View for DedupWindow {
    type V = Seq<u128>;

    /// The identifiers' numbers in order of arrival.
    closed spec fn view(&self) -> Seq<u128> {
        self.order@
    }
}

/// A window with room for one more: without its oldest quarter if it was full.
pub open spec fn with_room(window: Seq<u128>) -> Seq<u128> {
    if window.len() >= DEDUP_CAPACITY {
        window.skip(DEDUP_EVICTED as int)
    } else {
        window
    }
}

/// A window after an identifier arrived.
pub open spec fn after_arrival(window: Seq<u128>, id: u128) -> Seq<u128> {
    if with_room(window).contains(id) {
        with_room(window)
    } else {
        with_room(window).push(id)
    }
}

impl DedupWindow {
    /// The index agrees with the list, which names nothing twice and is bounded.
    pub closed spec fn wf(&self) -> bool {
        &&& self.order@.len() <= DEDUP_CAPACITY
        &&& self.order@.no_duplicates()
        &&& forall|n: u128| #[trigger] self.seen@.contains(n) <==> self.order@.contains(n)
    }

    /// An empty window.
    pub fn new() -> (w: DedupWindow)
        ensures
            w.wf(),
            w@ == Seq::<u128>::empty(),
    {
        DedupWindow { seen: HashSet::new(), order: Vec::new() }
    }

    /// How many identifiers are remembered.
    pub fn len(&self) -> (n: usize)
        ensures
            n == self@.len(),
    {
        self.order.len()
    }

    fn make_room(&mut self)
        requires
            old(self).wf(),
        ensures
            final(self).wf(),
            final(self)@ == with_room(old(self)@),
            final(self)@.len() < DEDUP_CAPACITY,
    {
        if self.order.len() < DEDUP_CAPACITY {
            return ;
        }
        let mut i: usize = 0;
        assert(self.order@.skip(0) =~= self.order@);
        while i < DEDUP_EVICTED
            invariant
                i <= DEDUP_EVICTED < self.order@.len(),
                self.order@ == old(self).order@,
                self.order@.no_duplicates(),
                forall|n: u128| #[trigger]
                    self.seen@.contains(n) <==> self.order@.skip(i as int).contains(n),
            decreases DEDUP_EVICTED - i,
        {
            let ghost before = self.seen@;
            let n: u128 = self.order[i];
            self.seen.remove(&n);
            proof {
                let from = self.order@.skip(i as int);
                let rest = self.order@.skip(i + 1);
                assert(self.seen@ == before.remove(n));
                assert forall|m: u128| #[trigger] self.seen@.contains(m) <==> rest.contains(m) by {
                    if rest.contains(m) {
                        let p = choose|p: int| 0 <= p < rest.len() && rest[p] == m;
                        assert(from[p + 1] == m);
                        assert(self.order@[i + 1 + p] == m);
                        assert(m != n);
                    }
                    if self.seen@.contains(m) {
                        let p = choose|p: int| 0 <= p < from.len() && from[p] == m;
                        assert(p != 0);
                        assert(rest[p - 1] == m);
                    }
                }
            }
            i = i + 1;
        }
        let ghost all = self.order@;
        let kept: Vec<u128> = self.order.split_off(DEDUP_EVICTED);
        self.order = kept;
        assert(self.order@ =~= all.skip(DEDUP_EVICTED as int));
    }

    /// Records an identifier; `false` if the window already has it.
    pub fn insert(&mut self, id: u128) -> (fresh: bool)
        requires
            old(self).wf(),
        ensures
            final(self).wf(),
            final(self)@ == after_arrival(old(self)@, id),
            fresh == !with_room(old(self)@).contains(id),
    {
        self.make_room();
        if self.seen.contains(&id) {
            return false;
        }
        let ghost before = self.order@;
        self.seen.insert(id);
        self.order.push(id);
        proof {
            assert forall|n: u128| #[trigger] self.seen@.contains(n) <==> self.order@.contains(
                n,
            ) by {
                if self.order@.contains(n) {
                    let p = choose|p: int| 0 <= p < self.order@.len() && self.order@[p] == n;
                    if p < before.len() {
                        assert(before[p] == n);
                        assert(before.contains(n));
                    }
                }
                if before.contains(n) {
                    let p = choose|p: int| 0 <= p < before.len() && before[p] == n;
                    assert(self.order@[p] == n);
                }
                assert(self.order@[before.len() as int] == id);
            }
        }
        true
    }
}

/// An identifier that arrives for the first time is remembered while fewer than
/// three quarters of a window of others arrive after it.
pub proof fn law_recent_arrivals_are_remembered(window: Seq<u128>, id: u128, later: Seq<u128>)
    requires
        window.len() <= DEDUP_CAPACITY,
        !with_room(window).contains(id),
        later.len() < DEDUP_CAPACITY - DEDUP_EVICTED,
    ensures
        after_arrivals(after_arrival(window, id), later).contains(id),
{
    let first = after_arrival(window, id);
    assert(first.last() == id);
    lemma_age(first, later, id, 0);
}

/// A window after identifiers arrived one after another.
pub open spec fn after_arrivals(window: Seq<u128>, ids: Seq<u128>) -> Seq<u128>
    decreases ids.len(),
{
    if ids.len() == 0 {
        window
    } else {
        after_arrival(after_arrivals(window, ids.drop_last()), ids.last())
    }
}

/// An identifier with `age` others behind it is still there after further
/// arrivals, with at most so many more behind it.
proof fn lemma_age(window: Seq<u128>, later: Seq<u128>, id: u128, age: nat)
    requires
        0 < window.len() <= DEDUP_CAPACITY,
        age < window.len(),
        window[window.len() - 1 - age] == id,
        age + later.len() < DEDUP_CAPACITY - DEDUP_EVICTED,
    ensures
        ({
            let after = after_arrivals(window, later);
            &&& after.len() <= DEDUP_CAPACITY
            &&& exists|a: nat|
                #![trigger after[after.len() - 1 - a]]
                a <= age + later.len() && a < after.len() && after[after.len() - 1 - a] == id
        }),
    decreases later.len(),
{
    if later.len() == 0 {
        let after = after_arrivals(window, later);
        assert(after[after.len() - 1 - age] == id);
    } else {
        lemma_age(window, later.drop_last(), id, age);
        let mid = after_arrivals(window, later.drop_last());
        let a = choose|a: nat|
            #![trigger mid[mid.len() - 1 - a]]
            a <= age + later.drop_last().len() && a < mid.len() && mid[mid.len() - 1 - a] == id;
        let room = with_room(mid);
        assert(room[room.len() - 1 - a] == id);
        let after = after_arrival(mid, later.last());
        assert(after == after_arrivals(window, later));
        if room.contains(later.last()) {
            assert(after[after.len() - 1 - a] == id);
        } else {
            let b = (a + 1) as nat;
            assert(after[after.len() - 1 - b] == id);
        }
    }
}

} // verus!
