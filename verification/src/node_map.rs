//! An index from UI node ids to their position in the tree's node list: an
//! open-addressing hash table with linear probing. A node's home slot is
//! taken from the top bits of its id (ids are hashes), and the table has at
//! least twice as many slots as nodes, so a probe always meets a free slot.

use vstd::prelude::*;
use vstd::set_lib::{lemma_len_subset, lemma_int_range, set_int_range};
use vstd::arithmetic::div_mod::lemma_fundamental_div_mod_converse;

verus! {

/// The index of the first occurrence of `id` among the first `k` ids.
pub open spec fn first_in(ids: Seq<u64>, id: u64, k: int) -> Option<int>
    decreases k,
{
    if k <= 0 || k > ids.len() {
        None
    } else {
        match first_in(ids, id, k - 1) {
            Some(i) => Some(i),
            None => if ids[k - 1] == id {
                Some(k - 1)
            } else {
                None
            },
        }
    }
}

/// `first_in` finds the smallest index holding `id`, or `None` where there is none.
pub proof fn lemma_first_in(ids: Seq<u64>, id: u64, k: int)
    requires
        0 <= k <= ids.len(),
    ensures
        match first_in(ids, id, k) {
            Some(i) => 0 <= i < k && ids[i] == id && forall|j: int| 0 <= j < i ==> ids[j] != id,
            None => forall|j: int| 0 <= j < k ==> ids[j] != id,
        },
    decreases k,
{
    if k > 0 {
        lemma_first_in(ids, id, k - 1);
    }
}

/// `x % m` for `x` within one period of `0..m`.
proof fn lemma_mod_near(x: int, m: int)
    requires
        m > 0,
        -m <= x < 2 * m,
    ensures
        x % m == if x < 0 {
            x + m
        } else if x < m {
            x
        } else {
            x - m
        },
{
    if x < 0 {
        lemma_fundamental_div_mod_converse(x, m, -1, x + m);
    } else if x < m {
        lemma_fundamental_div_mod_converse(x, m, 0, x);
    } else {
        lemma_fundamental_div_mod_converse(x, m, 1, x - m);
    }
}

/// The slot `d` steps after slot `h`, wrapping around `m` slots.
pub open spec fn probe(h: int, d: int, m: int) -> int {
    (h + d) % m
}

/// How many steps slot `s` lies after slot `h`.
pub open spec fn dist(h: int, s: int, m: int) -> int {
    (s - h) % m
}

proof fn lemma_probe_dist(h: int, s: int, d: int, m: int)
    requires
        0 <= h < m,
        0 <= s < m,
        0 <= d < m,
    ensures
        0 <= dist(h, s, m) < m,
        probe(h, dist(h, s, m), m) == s,
        0 <= probe(h, d, m) < m,
        dist(h, probe(h, d, m), m) == d,
{
    lemma_mod_near(s - h, m);
    lemma_mod_near(h + d, m);
    lemma_mod_near(h + dist(h, s, m), m);
    lemma_mod_near(probe(h, d, m) - h, m);
}

/// The id stored in a taken slot.
pub open spec fn key_of(t: Option<(u64, usize)>) -> u64 {
    match t {
        Some((k, _)) => k,
        None => 0,
    }
}

/// The position stored in a taken slot.
pub open spec fn pos_of(t: Option<(u64, usize)>) -> usize {
    match t {
        Some((_, i)) => i,
        None => 0,
    }
}

/// The index from node ids to positions.
pub struct NodeMap {
    /// `Some((id, position))` or a free slot.
    slots: Vec<Option<(u64, usize)>>,
    width: u64,
    shift: u64,
    mask: u64,
    /// The ids, by position.
    ids: Ghost<Seq<u64>>,
}

/// The home slot of `id` in a table of `2^width` slots: the top bits of the id.
pub open spec fn home(id: u64, width: u64) -> int {
    (id >> ((64 - width) as u64)) as int
}

impl NodeMap {
    /// The ids the map was built from, by position.
    pub closed spec fn ids(&self) -> Seq<u64> {
        self.ids@
    }

    /// The stored entry in slot `s` is sound: its position holds its id,
    /// and every slot from its home up to it is taken, by entries of other
    /// ids or by earlier entries of the same id.
    closed spec fn entry_ok(&self, s: int) -> bool {
        let m = self.slots@.len() as int;
        let (key, idx) = self.slots@[s]->0;
        let h = home(key, self.width);
        &&& 0 <= idx < self.ids@.len()
        &&& self.ids@[idx as int] == key
        &&& forall|d: int|
            0 <= d < dist(h, s, m) ==> {
                let t = #[trigger] self.slots@[probe(h, d, m)];
                &&& t is Some
                &&& key_of(t) == key ==> pos_of(t) < idx
            }
    }

    /// The set of taken slots.
    closed spec fn taken(&self) -> Set<int> {
        Set::new(|s: int| 0 <= s < self.slots@.len() && self.slots@[s] is Some)
    }

    /// Well-formedness: `2^width` slots for fewer ids, every taken slot
    /// sound, and every position stored.
    pub closed spec fn wf(&self) -> bool {
        let m = self.slots@.len() as int;
        &&& 1 <= self.width <= 63
        &&& m == (1u64 << self.width) as int
        &&& self.mask == ((1u64 << self.width) - 1) as u64
        &&& self.shift == 64 - self.width
        &&& self.ids@.len() < m
        &&& forall|s: int| 0 <= s < m && (#[trigger] self.slots@[s]) is Some ==> self.entry_ok(s)
        &&& forall|i: int|
            #![trigger self.ids@[i]]
            0 <= i < self.ids@.len() ==> exists|s: int|
                0 <= s < m && #[trigger] self.slots@[s] == Some((self.ids@[i], i as usize))
        &&& self.taken().finite()
        &&& self.taken().len() == self.ids@.len()
    }

    /// Some slot is free, whichever slot the search starts from: there are
    /// fewer taken slots than slots.
    proof fn lemma_not_full(&self, h: int)
        requires
            self.wf(),
            0 <= h < self.slots@.len(),
        ensures
            exists|d: int|
                0 <= d < self.slots@.len() && (#[trigger] self.slots@[probe(h, d, self.slots@.len() as int)]) is None,
    {
        let m = self.slots@.len() as int;
        if forall|d: int| 0 <= d < m ==> (#[trigger] self.slots@[probe(h, d, m)]) is Some {
            lemma_int_range(0, m);
            assert forall|s: int| set_int_range(0, m).contains(s) implies self.taken().contains(s) by {
                lemma_probe_dist(h, s, 0, m);
                let d = dist(h, s, m);
                assert(self.slots@[probe(h, d, m)] is Some);
            }
            lemma_len_subset(set_int_range(0, m), self.taken());
        }
    }

    /// The home slot of `id`, and the next slot after `slot`, wrapping around.
    proof fn lemma_bits(&self, id: u64, slot: u64)
        requires
            self.wf(),
        ensures
            (id >> self.shift) as int == home(id, self.width),
            home(id, self.width) < self.slots@.len(),
            slot < self.slots@.len() ==> ((slot + 1) as u64 & self.mask) as int == (slot + 1) % (self.slots@.len() as int),
    {
        let w = self.width;
        assert((id >> ((64 - w) as u64)) < (1u64 << w)) by (bit_vector)
            requires
                1 <= w <= 63,
        ;
        if slot < self.slots@.len() {
            assert(((slot + 1) as u64 & (((1u64 << w) - 1) as u64)) == ((slot + 1) as u64) % (1u64 << w)) by (bit_vector)
                requires
                    1 <= w <= 63,
                    slot < (1u64 << w),
            ;
        }
    }

    /// Stores `id` at position `idx`, the next position.
    fn insert(&mut self, id: u64, idx: usize)
        requires
            old(self).wf(),
            idx == old(self).ids@.len(),
            idx + 1 < old(self).slots@.len(),
        ensures
            final(self).wf(),
            final(self).ids@ == old(self).ids@.push(id),
            final(self).slots@.len() == old(self).slots@.len(),
    {
        let ghost m = self.slots@.len() as int;
        let mlen = self.slots.len();
        proof {
            self.lemma_bits(id, 0);
        }
        let mut slot = id >> self.shift;
        let ghost h = slot as int;
        let ghost mut d: int = 0;
        proof {
            lemma_mod_near(h, m);
        }
        loop
            invariant
                self.wf(),
                *self == *old(self),
                mlen == m,
                m == self.slots@.len(),
                0 <= h < m,
                h == home(id, self.width),
                0 <= d < m,
                slot as int == probe(h, d, m),
                forall|e: int| 0 <= e < d ==> (#[trigger] self.slots@[probe(h, e, m)]) is Some,
            ensures
                self.wf(),
                *self == *old(self),
                mlen == m,
                0 <= d < m,
                slot as int == probe(h, d, m),
                self.slots@[slot as int] is None,
                forall|e: int| 0 <= e < d ==> (#[trigger] self.slots@[probe(h, e, m)]) is Some,
            decreases m - d,
        {
            proof {
                lemma_probe_dist(h, 0, d, m);
            }
            assert(slot < m);
            if self.slots[slot as usize].is_none() {
                break;
            }
            assert(self.slots@[probe(h, d, m)] is Some);
            proof {
                self.lemma_bits(id, slot);
                lemma_mod_near(h + d, m);
                lemma_mod_near(slot + 1, m);
                lemma_mod_near(h + d + 1, m);
            }
            slot = (slot + 1) & self.mask;
            proof {
                d = d + 1;
                assert forall|e: int| 0 <= e < d implies (#[trigger] self.slots@[probe(h, e, m)]) is Some by {}
                if d == m {
                    self.lemma_not_full(h);
                    let e = choose|e: int| 0 <= e < m && (#[trigger] self.slots@[probe(h, e, m)]) is None;
                    assert(self.slots@[probe(h, e, m)] is Some);
                }
            }
        }
        let ghost before = *self;
        assert(slot < m);
        self.slots.set(slot as usize, Some((id, idx)));
        self.ids = Ghost(self.ids@.push(id));
        proof {
            let s0 = slot as int;
            lemma_probe_dist(h, s0, d, m);
            assert(self.taken() =~= before.taken().insert(s0));
            assert forall|s: int| 0 <= s < m && (#[trigger] self.slots@[s]) is Some implies self.entry_ok(s) by {
                if s != s0 {
                    assert(before.entry_ok(s));
                    let (key, i2) = before.slots@[s]->0;
                    let h2 = home(key, self.width);
                    assert forall|e: int| 0 <= e < dist(h2, s, m) implies {
                        let t = #[trigger] self.slots@[probe(h2, e, m)];
                        &&& t is Some
                        &&& key_of(t) == key ==> pos_of(t) < i2
                    } by {
                        assert(before.slots@[probe(h2, e, m)] is Some);
                    }
                } else {
                    assert forall|e: int| 0 <= e < dist(h, s, m) implies {
                        let t = #[trigger] self.slots@[probe(h, e, m)];
                        &&& t is Some
                        &&& key_of(t) == id ==> pos_of(t) < idx
                    } by {
                        lemma_probe_dist(h, 0, e, m);
                        let t0 = before.slots@[probe(h, e, m)];
                        assert(t0 is Some);
                        assert(before.entry_ok(probe(h, e, m)));
                    }
                }
            }
            assert forall|i: int| #![trigger self.ids@[i]] 0 <= i < self.ids@.len() implies exists|s: int|
                0 <= s < m && #[trigger] self.slots@[s] == Some((self.ids@[i], i as usize)) by {
                if i < idx {
                    let s1 = choose|s: int| 0 <= s < m && #[trigger] before.slots@[s] == Some((before.ids@[i], i as usize));
                    assert(self.slots@[s1] == Some((self.ids@[i], i as usize)));
                } else {
                    assert(self.slots@[s0] == Some((self.ids@[i], i as usize)));
                }
            }
        }
    }

    /// The position of the first node with the id `id`, if any.
    pub fn get(&self, id: u64) -> (r: Option<usize>)
        requires
            self.wf(),
        ensures
            match first_in(self.ids(), id, self.ids().len() as int) {
                Some(i) => r == Some(i as usize),
                None => r is None,
            },
    {
        let ghost m = self.slots@.len() as int;
        let mlen = self.slots.len();
        proof {
            self.lemma_bits(id, 0);
        }
        let mut slot = id >> self.shift;
        let ghost h = slot as int;
        let ghost mut d: int = 0;
        proof {
            lemma_mod_near(h, m);
        }
        loop
            invariant
                self.wf(),
                m == self.slots@.len(),
                mlen == m,
                0 <= h < m,
                h == home(id, self.width),
                0 <= d < m,
                slot as int == probe(h, d, m),
                forall|e: int|
                    0 <= e < d ==> {
                        let t = #[trigger] self.slots@[probe(h, e, m)];
                        t is Some && key_of(t) != id
                    },
            decreases m - d,
        {
            proof {
                lemma_probe_dist(h, 0, d, m);
            }
            assert(slot < m);
            match self.slots[slot as usize] {
                None => {
                    proof {
                        self.lemma_absent(id, h, d);
                    }
                    return None;
                },
                Some((k, idx)) => {
                    if k == id {
                        proof {
                            self.lemma_found(id, h, d);
                        }
                        return Some(idx);
                    }
                },
            }
            proof {
                self.lemma_bits(id, slot);
                lemma_mod_near(h + d, m);
                lemma_mod_near(slot + 1, m);
                lemma_mod_near(h + d + 1, m);
            }
            slot = (slot + 1) & self.mask;
            proof {
                d = d + 1;
                assert forall|e: int| 0 <= e < d implies {
                    let t = #[trigger] self.slots@[probe(h, e, m)];
                    t is Some && key_of(t) != id
                } by {}
                if d == m {
                    self.lemma_not_full(h);
                    let e = choose|e: int| 0 <= e < m && (#[trigger] self.slots@[probe(h, e, m)]) is None;
                    assert(self.slots@[probe(h, e, m)] is Some);
                }
            }
        }
    }

    /// Probing for `id` from its home meets a free slot at step `d` after
    /// only other ids: `id` is not stored.
    proof fn lemma_absent(&self, id: u64, h: int, d: int)
        requires
            self.wf(),
            h == home(id, self.width),
            0 <= h < self.slots@.len(),
            0 <= d < self.slots@.len(),
            self.slots@[probe(h, d, self.slots@.len() as int)] is None,
            forall|e: int|
                0 <= e < d ==> {
                    let t = #[trigger] self.slots@[probe(h, e, self.slots@.len() as int)];
                    t is Some && key_of(t) != id
                },
        ensures
            first_in(self.ids@, id, self.ids@.len() as int) is None,
    {
        let m = self.slots@.len() as int;
        lemma_first_in(self.ids@, id, self.ids@.len() as int);
        if let Some(i) = first_in(self.ids@, id, self.ids@.len() as int) {
            let s = choose|s: int| 0 <= s < m && #[trigger] self.slots@[s] == Some((self.ids@[i], i as usize));
            assert(self.entry_ok(s));
            lemma_probe_dist(h, s, d, m);
            let ds = dist(h, s, m);
            if ds < d {
                assert(self.slots@[probe(h, ds, m)] is Some);
            } else if ds > d {
                assert(self.slots@[probe(h, d, m)] is Some);
            }
        }
    }

    /// Probing for `id` from its home meets it at step `d` after only other
    /// ids: it is the first position with that id.
    proof fn lemma_found(&self, id: u64, h: int, d: int)
        requires
            self.wf(),
            h == home(id, self.width),
            0 <= h < self.slots@.len(),
            0 <= d < self.slots@.len(),
            self.slots@[probe(h, d, self.slots@.len() as int)] is Some,
            key_of(self.slots@[probe(h, d, self.slots@.len() as int)]) == id,
            forall|e: int|
                0 <= e < d ==> {
                    let t = #[trigger] self.slots@[probe(h, e, self.slots@.len() as int)];
                    t is Some && key_of(t) != id
                },
        ensures
            first_in(self.ids@, id, self.ids@.len() as int) == Some(
                pos_of(self.slots@[probe(h, d, self.slots@.len() as int)]) as int,
            ),
    {
        let m = self.slots@.len() as int;
        let sd = probe(h, d, m);
        lemma_probe_dist(h, 0, d, m);
        let idx = pos_of(self.slots@[sd]) as int;
        assert(self.entry_ok(sd));
        lemma_first_in(self.ids@, id, self.ids@.len() as int);
        let i = first_in(self.ids@, id, self.ids@.len() as int)->0;
        let s = choose|s: int| 0 <= s < m && #[trigger] self.slots@[s] == Some((self.ids@[i], i as usize));
        assert(self.entry_ok(s));
        lemma_probe_dist(h, s, d, m);
        let ds = dist(h, s, m);
        if ds < d {
            assert(self.slots@[probe(h, ds, m)] is Some);
        } else if ds > d {
            assert(self.slots@[probe(h, d, m)] is Some);
        }
    }

    /// Builds the index for the nodes with the given ids, by position.
    pub fn new(node_ids: &[u64]) -> (r: NodeMap)
        requires
            4 * node_ids@.len() + 1 <= usize::MAX,
        ensures
            r.wf(),
            r.ids() == node_ids@,
    {
        let n = node_ids.len();
        // The table gets 2^width slots: at least 4n + 1 rounded down to a
        // power of two, and at least 2.
        let x: u64 = (4 * n + 1) as u64;
        let mut width: u64 = 0;
        let mut p: u64 = 1;
        assert((1u64 << 0u64) == 1) by (bit_vector);
        while p <= x / 2
            invariant
                width <= 63,
                p == (1u64 << width),
                1 <= p <= x,
            decreases x - p,
        {
            if width == 63 {
                assert((1u64 << 63u64) == 0x8000000000000000u64) by (bit_vector);
            }
            assert((1u64 << (width + 1) as u64) == 2 * (1u64 << width)) by (bit_vector)
                requires
                    width <= 62,
            ;
            p = p * 2;
            width = width + 1;
        }
        assert(x < 2 * p);
        if width == 0 {
            width = 1;
            p = 2;
            assert((1u64 << 1u64) == 2) by (bit_vector);
        }
        assert(x < 2 * p);
        let m = p as usize;
        let mask = p - 1;
        let shift = 64 - width;
        let slots: Vec<Option<(u64, usize)>> = vec![None; m];
        let mut map = NodeMap { slots, width, shift, mask, ids: Ghost(Seq::empty()) };
        proof {
            assert(map.taken() =~= Set::<int>::empty());
            assert(m == (1u64 << width) as int);
            assert(node_ids@.take(0) =~= Seq::<u64>::empty());
        }
        let mut i: usize = 0;
        while i < n
            invariant
                i <= n,
                n == node_ids@.len(),
                n < map.slots@.len(),
                map.ids@ == node_ids@.take(i as int),
                map.wf(),
            decreases n - i,
        {
            map.insert(node_ids[i], i);
            assert(map.ids@ =~= node_ids@.take(i + 1));
            i += 1;
        }
        assert(node_ids@.take(n as int) =~= node_ids@);
        map
    }
}

} // verus!
