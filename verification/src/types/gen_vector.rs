//! Generational vector: a slot map whose handles carry the generation of the
//! slot they were issued for, so that a handle to a removed element never
//! reaches a later element stored in the same slot.
use vstd::prelude::*;

use crate::types::slot_model::{
    VxSlotModel, slot_live, slot_value, live_count, live_items, last_live_slot, next_slot,
    next_generation, inserted_at, removed_at, lemma_count_le_len, lemma_count_update,
    lemma_count_push, lemma_count_lt_len, lemma_count_pos, lemma_items_step, lemma_items_end,
    lemma_last_slot, free_list_valid,
};

verus! {

/// Handle into a [`VxGenVector`]: a slot index and the generation of that slot.
#[derive(Clone, Copy, Debug, PartialEq, Eq, Hash, Structural)]
pub struct VxGenIndex {
    pub(crate) index: usize,
    pub(crate) generation: u64,
}

impl VxGenIndex {
    /// Slot index of the handle.
    pub closed spec fn slot(self) -> int {
        self.index as int
    }

    /// Generation recorded in the handle.
    pub closed spec fn gen(self) -> u64 {
        self.generation
    }

    pub(crate) fn new(index: usize, generation: u64) -> (r: Self)
        ensures
            r.slot() == index as int,
            r.gen() == generation,
    {
        Self { index, generation }
    }

    /// The slot index of the handle.
    pub fn raw_index(&self) -> (r: usize)
        ensures
            r as int == self.slot(),
    {
        self.index
    }

    /// The generation recorded in the handle.
    pub fn generation(&self) -> (g: u64)
        ensures
            g == self.gen(),
    {
        self.generation
    }

    /// The slot index of the handle, truncated to 32 bits.
    pub fn raw_index_u32(&self) -> (r: u32)
        ensures
            r as int == self.slot() % 0x1_0000_0000,
    {
        let i = self.index;
        assert((i as u32) as int == (i as int) % 0x1_0000_0000) by (bit_vector);
        i as u32
    }

    /// Two handles are equal exactly when slot and generation are.
    pub proof fn lemma_eq(a: Self, b: Self)
        ensures
            (a == b) <==> (a.slot() == b.slot() && a.gen() == b.gen()),
            0 <= a.slot() <= usize::MAX,
    {
    }
}

impl Default for VxGenIndex {
    fn default() -> (r: Self)
        ensures
            r.slot() == 0,
            r.gen() == 0,
    {
        Self { index: 0, generation: 0 }
    }
}

/// A slot of the vector: either holding a value or linked into the free list.
pub(crate) enum VxGenSlot<T> {
    Using { data: T, generation: u64 },
    Free { next_free: Option<usize>, generation: u64 },
}

impl<T> VxGenSlot<T> {
    pub(crate) open spec fn model(self) -> VxSlotModel<T> {
        match self {
            VxGenSlot::Using { data, generation } => (generation, Some(data)),
            VxGenSlot::Free { generation, .. } => (generation, None),
        }
    }

    pub(crate) open spec fn next_link(self) -> Option<usize> {
        match self {
            VxGenSlot::Using { .. } => None,
            VxGenSlot::Free { next_free, .. } => next_free,
        }
    }
}

// ---------------------------------------------------------------------------
// Contracts in terms of handles.
// ---------------------------------------------------------------------------

/// `id` names a value currently stored in `m`.
pub open spec fn gen_live<T>(m: Seq<VxSlotModel<T>>, id: VxGenIndex) -> bool {
    slot_live(m, id.slot(), id.gen())
}

/// The value that a live `id` names in `m`.
pub open spec fn gen_value<T>(m: Seq<VxSlotModel<T>>, id: VxGenIndex) -> T {
    slot_value(m, id.slot())
}

/// `(m2, free2)` is `(m, free)` after an insertion of `data` that handed out `id`.
pub open spec fn gen_inserted<T>(
    m: Seq<VxSlotModel<T>>,
    free: Seq<usize>,
    data: T,
    id: VxGenIndex,
    m2: Seq<VxSlotModel<T>>,
    free2: Seq<usize>,
) -> bool {
    inserted_at(m, free, data, id.slot(), id.gen(), m2, free2)
}

/// `(m2, free2)` is `(m, free)` after removing the value that `id` names.
pub open spec fn gen_removed<T>(
    m: Seq<VxSlotModel<T>>,
    free: Seq<usize>,
    id: VxGenIndex,
    m2: Seq<VxSlotModel<T>>,
    free2: Seq<usize>,
) -> bool {
    removed_at(m, free, id.slot(), id.gen(), m2, free2)
}

/// The handles of the stored values together with the values, in slot order;
/// `base` is the slot index of `m[0]`.
pub closed spec fn gen_items_with_id<T>(m: Seq<VxSlotModel<T>>, base: int) -> Seq<(VxGenIndex, T)>
    decreases m.len(),
{
    if m.len() == 0 {
        Seq::empty()
    } else {
        let rest = gen_items_with_id(m.drop_first(), base + 1);
        match m[0].1 {
            Some(d) => seq![(VxGenIndex { index: base as usize, generation: m[0].0 }, d)] + rest,
            None => rest,
        }
    }
}

/// The handles of `gen_items_with_id` are exactly the live handles, and its
/// values the live values.
pub proof fn lemma_items_with_id<T>(m: Seq<VxSlotModel<T>>, base: int)
    requires
        0 <= base,
        base + m.len() <= usize::MAX + 1,
    ensures
        gen_items_with_id(m, base).len() == live_items(m).len(),
        forall|k: int|
            0 <= k < gen_items_with_id(m, base).len() ==> {
                &&& (#[trigger] gen_items_with_id(m, base)[k]).1 == live_items(m)[k]
                &&& slot_live(m, gen_items_with_id(m, base)[k].0.slot() - base, gen_items_with_id(m, base)[k].0.gen())
            },
    decreases m.len(),
{
    if m.len() > 0 {
        lemma_items_with_id(m.drop_first(), base + 1);
        let r = gen_items_with_id(m, base);
        let t = gen_items_with_id(m.drop_first(), base + 1);
        assert forall|k: int| 0 <= k < r.len() implies {
            &&& (#[trigger] r[k]).1 == live_items(m)[k]
            &&& slot_live(m, r[k].0.slot() - base, r[k].0.gen())
        } by {
            if m[0].1 is Some {
                if k > 0 {
                    assert(r[k] == t[k - 1]);
                    assert(m.drop_first()[t[k - 1].0.slot() - (base + 1)] == m[r[k].0.slot() - base]);
                }
            } else {
                assert(r[k] == t[k]);
                assert(m.drop_first()[t[k].0.slot() - (base + 1)] == m[r[k].0.slot() - base]);
            }
        }
    }
}

/// `gen_items_with_id` hands out each live slot once, in strictly increasing
/// slot order, and nothing else.
pub proof fn lemma_items_with_id_order<T>(m: Seq<VxSlotModel<T>>, base: int)
    requires
        0 <= base,
        base + m.len() <= usize::MAX + 1,
    ensures
        forall|k: int|
            0 <= k < gen_items_with_id(m, base).len() ==> base <= (#[trigger] gen_items_with_id(m, base)[k]).0.slot()
                < base + m.len(),
        forall|j: int, k: int|
            0 <= j < k < gen_items_with_id(m, base).len() ==> (#[trigger] gen_items_with_id(m, base)[j]).0.slot()
                < (#[trigger] gen_items_with_id(m, base)[k]).0.slot(),
        forall|i: int|
            0 <= i < m.len() && (#[trigger] m[i]).1 is Some ==> exists|k: int|
                0 <= k < gen_items_with_id(m, base).len() && gen_items_with_id(m, base)[k].0.slot() == base + i,
    decreases m.len(),
{
    if m.len() > 0 {
        let r = gen_items_with_id(m, base);
        let t = gen_items_with_id(m.drop_first(), base + 1);
        lemma_items_with_id_order(m.drop_first(), base + 1);
        if m[0].1 is Some {
            assert(r[0].0.slot() == base);
            assert forall|k: int| 0 < k < r.len() implies r[k] == t[k - 1] by {}
            assert forall|i: int| 0 <= i < m.len() && (#[trigger] m[i]).1 is Some implies exists|k: int|
                0 <= k < r.len() && r[k].0.slot() == base + i by {
                if i == 0 {
                    assert(r[0].0.slot() == base);
                } else {
                    assert(m.drop_first()[i - 1] == m[i]);
                    let k = choose|k: int| 0 <= k < t.len() && t[k].0.slot() == base + 1 + (i - 1);
                    assert(r[k + 1] == t[k]);
                }
            }
        } else {
            assert(r == t);
            assert forall|i: int| 0 <= i < m.len() && (#[trigger] m[i]).1 is Some implies exists|k: int|
                0 <= k < r.len() && r[k].0.slot() == base + i by {
                assert(i != 0);
                assert(m.drop_first()[i - 1] == m[i]);
            }
        }
    }
}

/// Each pair of `gen_items_with_id` is a live handle and the value it names;
/// with `base` 0 these are handles of `m` itself.
pub proof fn lemma_items_with_id_values<T>(m: Seq<VxSlotModel<T>>, base: int)
    requires
        0 <= base,
        base + m.len() <= usize::MAX + 1,
    ensures
        forall|k: int|
            0 <= k < gen_items_with_id(m, base).len() ==> {
                &&& slot_live(m, (#[trigger] gen_items_with_id(m, base)[k]).0.slot() - base, gen_items_with_id(m, base)[k].0.gen())
                &&& slot_value(m, gen_items_with_id(m, base)[k].0.slot() - base) == gen_items_with_id(m, base)[k].1
            },
        base == 0 ==> forall|k: int|
            0 <= k < gen_items_with_id(m, base).len() ==> {
                &&& gen_live(m, (#[trigger] gen_items_with_id(m, base)[k]).0)
                &&& gen_value(m, gen_items_with_id(m, base)[k].0) == gen_items_with_id(m, base)[k].1
            },
    decreases m.len(),
{
    if m.len() > 0 {
        lemma_items_with_id_values(m.drop_first(), base + 1);
        let r = gen_items_with_id(m, base);
        let t = gen_items_with_id(m.drop_first(), base + 1);
        assert forall|k: int| 0 <= k < r.len() implies {
            &&& slot_live(m, (#[trigger] r[k]).0.slot() - base, r[k].0.gen())
            &&& slot_value(m, r[k].0.slot() - base) == r[k].1
        } by {
            if m[0].1 is Some {
                if k > 0 {
                    assert(r[k] == t[k - 1]);
                    assert(m.drop_first()[t[k - 1].0.slot() - (base + 1)] == m[r[k].0.slot() - base]);
                } else {
                    assert(r[0].0.slot() == base);
                }
            } else {
                assert(r[k] == t[k]);
                assert(m.drop_first()[t[k].0.slot() - (base + 1)] == m[r[k].0.slot() - base]);
            }
        }
    }
}

/// The handles and values from slot `p` on: slot `p`'s, if it holds one,
/// then those after it.
proof fn lemma_items_with_id_step<T>(m: Seq<VxSlotModel<T>>, p: int)
    requires
        0 <= p < m.len(),
    ensures
        gen_items_with_id(m.skip(p), p) == (match m[p].1 {
            Some(d) => seq![(VxGenIndex { index: p as usize, generation: m[p].0 }, d)]
                + gen_items_with_id(m.skip(p + 1), p + 1),
            None => gen_items_with_id(m.skip(p + 1), p + 1),
        }),
{
    assert(m.skip(p).drop_first() =~= m.skip(p + 1));
}

/// Past the last slot there is nothing.
proof fn lemma_items_with_id_end<T>(m: Seq<VxSlotModel<T>>)
    ensures
        gen_items_with_id(m.skip(m.len() as int), m.len() as int) == Seq::<(VxGenIndex, T)>::empty(),
{
    assert(m.skip(m.len() as int) =~= Seq::<VxSlotModel<T>>::empty());
}

// ---------------------------------------------------------------------------
// The vector.
// ---------------------------------------------------------------------------

pub(crate) open spec fn slots_model<T>(s: Seq<VxGenSlot<T>>) -> Seq<VxSlotModel<T>> {
    s.map_values(|x: VxGenSlot<T>| x.model())
}

pub(crate) open spec fn slots_wf<T>(
    s: Seq<VxGenSlot<T>>,
    free_head: Option<usize>,
    len: usize,
    fl: Seq<usize>,
) -> bool {
    &&& len as nat == live_count(slots_model(s))
    &&& forall|k: int|
        0 <= k < fl.len() ==> {
            &&& (#[trigger] fl[k]) < s.len()
            &&& s[fl[k] as int] is Free
            &&& s[fl[k] as int].next_link() == (if k + 1 < fl.len() {
                Some(fl[k + 1])
            } else {
                None
            })
        }
    &&& forall|j: int, k: int| 0 <= j < k < fl.len() ==> fl[j] != fl[k]
    &&& forall|i: int|
        0 <= i < s.len() && (#[trigger] s[i]) is Free ==> exists|k: int|
            0 <= k < fl.len() && fl[k] == i
    &&& free_head == (if fl.len() > 0 {
        Some(fl[0])
    } else {
        None
    })
}

/// Two distinct elements of a vector, borrowed mutably at once.
pub(crate) fn two_slots_mut<S>(v: &mut Vec<S>, lo: usize, hi: usize) -> (r: (&mut S, &mut S))
    requires
        lo < hi < old(v)@.len(),
    ensures
        *r.0 == old(v)@[lo as int],
        *r.1 == old(v)@[hi as int],
        final(v)@ == old(v)@.update(lo as int, *final(r.0)).update(hi as int, *final(r.1)),
{
    let (first, second) = v.as_mut_slice().split_at_mut(lo + 1);
    let a = first.last_mut().unwrap();
    let (_, rest) = second.split_at_mut(hi - lo - 1);
    let b = rest.first_mut().unwrap();
    (a, b)
}

/// `Vec::capacity`: the number of elements the vector can hold without
/// reallocating. std documents it as at least the length; what else it is
/// depends on the allocator and is not stated.
#[verifier::external_body]
pub(crate) fn vec_capacity<S>(v: &Vec<S>) -> (r: usize)
    ensures
        r >= v@.len(),
{
    v.capacity()
}

/// Replacing the value of a used slot keeps the slots consistent.
proof fn lemma_slots_wf_replace<T>(
    s: Seq<VxGenSlot<T>>,
    free_head: Option<usize>,
    len: usize,
    fl: Seq<usize>,
    i: int,
    g: u64,
)
    requires
        slots_wf(s, free_head, len, fl),
        0 <= i < s.len(),
        s[i] is Using,
        s[i].model().0 == g,
    ensures
        forall|d: T| slots_wf(#[trigger] s.update(i, VxGenSlot::Using { data: d, generation: g }), free_head, len, fl),
{
    assert forall|d: T| slots_wf(#[trigger] s.update(i, VxGenSlot::Using { data: d, generation: g }), free_head, len, fl) by {
        let s2 = s.update(i, VxGenSlot::Using { data: d, generation: g });
        lemma_count_update(slots_model(s), i, (g, Some(d)));
        assert(slots_model(s2) =~= slots_model(s).update(i, (g, Some(d))));
        assert forall|ii: int| 0 <= ii < s2.len() && (#[trigger] s2[ii]) is Free implies exists|k: int|
            0 <= k < fl.len() && fl[k] == ii by {
            assert(s[ii] is Free);
        }
    }
}

/// A vector of slots addressed by [`VxGenIndex`] handles. Removed slots are
/// reused, most recently freed first, and their generation is bumped so that
/// old handles stop resolving.
pub struct VxGenVector<T> {
    pub(crate) slots: Vec<VxGenSlot<T>>,
    free_head: Option<usize>,
    len: usize,
    free_order: Ghost<Seq<usize>>,
}

impl<T> View for VxGenVector<T> {
    type V = Seq<VxSlotModel<T>>;

    closed spec fn view(&self) -> Seq<VxSlotModel<T>> {
        slots_model(self.slots@)
    }
}

impl<T> VxGenVector<T> {
    /// The free slots, the one that the next insertion reuses first.
    pub closed spec fn free_list(&self) -> Seq<usize> {
        self.free_order@
    }

    /// Internal consistency: the cached length, and the free list threaded
    /// through the free slots.
    pub closed spec fn wf(&self) -> bool {
        slots_wf(self.slots@, self.free_head, self.len, self.free_order@)
    }

    /// Every free slot is on the free list, and only free slots are.
    pub proof fn lemma_free_list(&self)
        requires
            self.wf(),
        ensures
            free_list_valid(self@, self.free_list()),
            self@.len() <= usize::MAX,
            live_count(self@) <= self@.len(),
    {
        lemma_count_le_len(self@);
        assert(self.slots.len() == self.slots@.len());
        assert(self@.len() == self.slots@.len());
        assert forall|i: int| 0 <= i < self@.len() && (#[trigger] self@[i]).1 is None implies self.free_list().contains(i as usize) by {
            assert(self.slots@[i] is Free);
            let k = choose|k: int| 0 <= k < self.free_order@.len() && self.free_order@[k] == i;
            assert(self.free_list()[k] == i as usize);
        }
        assert forall|k: int| 0 <= k < self.free_list().len() implies (#[trigger] self.free_list()[k]) < self@.len() && self@[self.free_list()[k] as int].1 is None by {
            assert(self.slots@[self.free_order@[k] as int] is Free);
        }
    }

    /// Creates an empty vector.
    pub fn new() -> (r: Self)
        ensures
            r.wf(),
            r@ == Seq::<VxSlotModel<T>>::empty(),
            r.free_list() == Seq::<usize>::empty(),
    {
        let r = Self { slots: Vec::new(), free_head: None, len: 0, free_order: Ghost(Seq::empty()) };
        assert(r@ =~= Seq::<VxSlotModel<T>>::empty());
        r
    }

    proof fn lemma_view_index(&self, i: int)
        requires
            0 <= i < self.slots@.len(),
        ensures
            self@[i] == self.slots@[i].model(),
            self@.len() == self.slots@.len(),
    {
    }

    /// Stores `data` and returns its handle.
    pub fn insert(&mut self, data: T) -> (id: VxGenIndex)
        requires
            old(self).wf(),
        ensures
            final(self).wf(),
            gen_inserted(old(self)@, old(self).free_list(), data, id, final(self)@, final(self).free_list()),
    {
        let ghost old_m = self@;
        let ghost fl = self.free_order@;
        let ghost old_slots = self.slots@;
        match self.free_head {
            Some(index) => {
                assert(fl.len() > 0);
                assert(fl[0] == index);
                let g = match &self.slots[index] {
                    VxGenSlot::Free { generation, .. } => *generation,
                    VxGenSlot::Using { .. } => {
                        assert(false);
                        0
                    },
                };
                let next = match &self.slots[index] {
                    VxGenSlot::Free { next_free, .. } => *next_free,
                    VxGenSlot::Using { .. } => None,
                };
                proof {
                    lemma_count_lt_len(old_m, index as int);
                    lemma_count_update(old_m, index as int, (g, Some(data)));
                }
                self.free_head = next;
                self.slots.set(index, VxGenSlot::Using { data, generation: g });
                self.len = self.len + 1;
                self.free_order = Ghost(fl.drop_first());
                let id = VxGenIndex::new(index, g);
                proof {
                    assert(self@ =~= old_m.update(index as int, (g, Some(data))));
                    let nfl = self.free_order@;
                    assert forall|k: int| 0 <= k < nfl.len() implies {
                        &&& (#[trigger] nfl[k]) < self.slots@.len()
                        &&& self.slots@[nfl[k] as int] is Free
                        &&& self.slots@[nfl[k] as int].next_link() == (if k + 1 < nfl.len() {
                            Some(nfl[k + 1])
                        } else {
                            None
                        })
                    } by {
                        assert(nfl[k] == fl[k + 1]);
                        assert(fl[0] != fl[k + 1]);
                    }
                    assert forall|i: int|
                        0 <= i < self.slots@.len() && (#[trigger] self.slots@[i]) is Free implies exists|k: int|
                        0 <= k < nfl.len() && nfl[k] == i by {
                        assert(i != index);
                        assert(old_slots[i] is Free);
                        let k = choose|k: int| 0 <= k < fl.len() && fl[k] == i;
                        assert(k != 0);
                        assert(nfl[k - 1] == i);
                    }
                    if nfl.len() > 0 {
                        assert(nfl[0] == fl[1]);
                    }
                }
                id
            },
            None => {
                assert(fl.len() == 0);
                let index = self.slots.len();
                proof {
                    lemma_count_le_len(old_m);
                    lemma_count_push(old_m, (0u64, Some(data)));
                }
                self.slots.push(VxGenSlot::Using { data, generation: 0 });
                let _ = self.slots.len();
                self.len = self.len + 1;
                let id = VxGenIndex::new(index, 0);
                proof {
                    assert(self@ =~= old_m.push((0u64, Some(data))));
                    assert forall|i: int|
                        0 <= i < self.slots@.len() && (#[trigger] self.slots@[i]) is Free implies exists|k: int|
                        0 <= k < fl.len() && fl[k] == i by {
                        assert(old_slots[i] is Free);
                    }
                }
                id
            },
        }
    }

    /// The handle that the next insertion will hand out.
    fn next_id(&self) -> (id: VxGenIndex)
        requires
            self.wf(),
        ensures
            id.slot() == next_slot(self@, self.free_list()),
            id.gen() == next_generation(self@, self.free_list()),
    {
        match self.free_head {
            Some(index) => {
                assert(self.free_order@[0] == index);
                match &self.slots[index] {
                    VxGenSlot::Free { generation, .. } => VxGenIndex::new(index, *generation),
                    VxGenSlot::Using { generation, .. } => {
                        assert(false);
                        VxGenIndex::new(index, *generation)
                    },
                }
            },
            None => VxGenIndex::new(self.slots.len(), 0),
        }
    }

    /// Stores the value that `f` builds from the handle it will be stored
    /// under, and returns that handle.
    pub fn insert_with_key<F: FnOnce(VxGenIndex) -> T>(&mut self, f: F) -> (id: VxGenIndex)
        requires
            old(self).wf(),
            forall|i: VxGenIndex|
                i.slot() == next_slot(old(self)@, old(self).free_list()) && i.gen()
                    == next_generation(old(self)@, old(self).free_list()) ==> f.requires((i,)),
        ensures
            final(self).wf(),
            exists|data: T|
                {
                    &&& f.ensures((id,), data)
                    &&& gen_inserted(
                        old(self)@,
                        old(self).free_list(),
                        data,
                        id,
                        final(self)@,
                        final(self).free_list(),
                    )
                },
    {
        let id = self.next_id();
        let data = f(id);
        let ghost d = data;
        let id2 = self.insert(data);
        proof {
            VxGenIndex::lemma_eq(id, id2);
            assert(f.ensures((id,), d));
        }
        id2
    }

    /// Removes the value that `id` names and returns it; `None` when `id`
    /// names nothing (never stored, or already removed).
    pub fn remove(&mut self, id: VxGenIndex) -> (r: Option<T>)
        requires
            old(self).wf(),
            gen_live(old(self)@, id) ==> id.gen() < u64::MAX,
        ensures
            final(self).wf(),
            gen_live(old(self)@, id) ==> {
                &&& r == Some(gen_value(old(self)@, id))
                &&& gen_removed(old(self)@, old(self).free_list(), id, final(self)@, final(self).free_list())
            },
            !gen_live(old(self)@, id) ==> {
                &&& r is None
                &&& final(self)@ == old(self)@
                &&& final(self).free_list() == old(self).free_list()
            },
    {
        let ghost old_m = self@;
        let ghost fl = self.free_order@;
        let ghost old_slots = self.slots@;
        if id.index >= self.slots.len() {
            return None;
        }
        let live = match &self.slots[id.index] {
            VxGenSlot::Using { generation, .. } => *generation == id.generation,
            VxGenSlot::Free { .. } => false,
        };
        if !live {
            return None;
        }
        let new_slot = VxGenSlot::Free { next_free: self.free_head, generation: id.generation + 1 };
        proof {
            lemma_count_update(old_m, id.index as int, ((id.generation + 1) as u64, None));
            lemma_count_pos(old_m, id.index as int);
        }
        let mut old_slot = new_slot;
        self.slots.set_and_swap(id.index, &mut old_slot);
        self.free_head = Some(id.index);
        self.len = self.len - 1;
        self.free_order = Ghost(seq![id.index] + fl);
        proof {
            assert(self@ =~= old_m.update(id.slot(), ((id.gen() + 1) as u64, None::<T>)));
            let nfl = self.free_order@;
            assert forall|k: int| 0 <= k < nfl.len() implies {
                &&& (#[trigger] nfl[k]) < self.slots@.len()
                &&& self.slots@[nfl[k] as int] is Free
                &&& self.slots@[nfl[k] as int].next_link() == (if k + 1 < nfl.len() {
                    Some(nfl[k + 1])
                } else {
                    None
                })
            } by {
                if k > 0 {
                    assert(nfl[k] == fl[k - 1]);
                    assert(fl[k - 1] != id.index);
                }
            }
            assert forall|j: int, k: int| 0 <= j < k < nfl.len() implies nfl[j] != nfl[k] by {
                if j == 0 {
                    assert(nfl[k] == fl[k - 1]);
                    assert(old_slots[fl[k - 1] as int] is Free);
                }
            }
            assert forall|i: int|
                0 <= i < self.slots@.len() && (#[trigger] self.slots@[i]) is Free implies exists|k: int|
                0 <= k < nfl.len() && nfl[k] == i by {
                if i == id.index {
                    assert(nfl[0] == i);
                } else {
                    assert(old_slots[i] is Free);
                    let k = choose|k: int| 0 <= k < fl.len() && fl[k] == i;
                    assert(nfl[k + 1] == i);
                }
            }
        }
        match old_slot {
            VxGenSlot::Using { data, .. } => Some(data),
            VxGenSlot::Free { .. } => {
                assert(false);
                None
            },
        }
    }

    /// The value that `id` names, if any.
    pub fn get(&self, id: VxGenIndex) -> (r: Option<&T>)
        ensures
            r == (if gen_live(self@, id) {
                Some(&gen_value(self@, id))
            } else {
                None
            }),
    {
        if id.index >= self.slots.len() {
            return None;
        }
        match &self.slots[id.index] {
            VxGenSlot::Using { data, generation } => {
                if *generation == id.generation {
                    Some(data)
                } else {
                    None
                }
            },
            VxGenSlot::Free { .. } => None,
        }
    }

    /// Mutable access to the value that `id` names, if any. Only that value
    /// can change through the returned reference.
    pub fn get_mut(&mut self, id: VxGenIndex) -> (r: Option<&mut T>)
        requires
            old(self).wf(),
        ensures
            final(self).wf(),
            final(self).free_list() == old(self).free_list(),
            gen_live(old(self)@, id) ==> {
                &&& r is Some
                &&& *r.unwrap() == gen_value(old(self)@, id)
                &&& final(self)@ == old(self)@.update(id.slot(), (id.gen(), Some(*final(r.unwrap()))))
            },
            !gen_live(old(self)@, id) ==> r is None && final(self)@ == old(self)@,
    {
        if id.index >= self.slots.len() {
            return None;
        }
        let live = match &self.slots[id.index] {
            VxGenSlot::Using { generation, .. } => *generation == id.generation,
            VxGenSlot::Free { .. } => false,
        };
        if !live {
            return None;
        }
        proof {
            lemma_slots_wf_replace(self.slots@, self.free_head, self.len, self.free_order@, id.index as int, id.generation);
        }
        match &mut self.slots[id.index] {
            VxGenSlot::Using { data, .. } => Some(data),
            VxGenSlot::Free { .. } => None,
        }
    }

    /// Mutable access to two values at once, in the order of the handles;
    /// `None` unless both handles name stored values in different slots.
    pub fn get_two_mut(&mut self, id1: VxGenIndex, id2: VxGenIndex) -> (r: Option<(&mut T, &mut T)>)
        requires
            old(self).wf(),
        ensures
            final(self).wf(),
            final(self).free_list() == old(self).free_list(),
            (id1.slot() != id2.slot() && gen_live(old(self)@, id1) && gen_live(old(self)@, id2)) ==> {
                &&& r is Some
                &&& *r.unwrap().0 == gen_value(old(self)@, id1)
                &&& *r.unwrap().1 == gen_value(old(self)@, id2)
                &&& final(self)@ == old(self)@.update(id1.slot(), (id1.gen(), Some(*final(r.unwrap().0)))).update(
                    id2.slot(),
                    (id2.gen(), Some(*final(r.unwrap().1))),
                )
            },
            !(id1.slot() != id2.slot() && gen_live(old(self)@, id1) && gen_live(old(self)@, id2)) ==> {
                &&& r is None
                &&& final(self)@ == old(self)@
            },
    {
        if id1.index == id2.index {
            return None;
        }
        if !self.contains(id1) || !self.contains(id2) {
            return None;
        }
        let ghost s0 = self.slots@;
        proof {
            assert forall|d1: T, d2: T|
                #[trigger] slots_wf(
                    s0.update(id1.index as int, VxGenSlot::Using { data: d1, generation: id1.generation }).update(
                        id2.index as int,
                        VxGenSlot::Using { data: d2, generation: id2.generation },
                    ),
                    self.free_head,
                    self.len,
                    self.free_order@,
                ) by {
                lemma_slots_wf_replace(s0, self.free_head, self.len, self.free_order@, id1.index as int, id1.generation);
                let s1 = s0.update(id1.index as int, VxGenSlot::Using { data: d1, generation: id1.generation });
                assert(slots_wf(s1, self.free_head, self.len, self.free_order@));
                lemma_slots_wf_replace(s1, self.free_head, self.len, self.free_order@, id2.index as int, id2.generation);
            }
        }
        let swapped = id2.index < id1.index;
        let lo = if swapped { id2.index } else { id1.index };
        let hi = if swapped { id1.index } else { id2.index };
        proof {
            assert forall|d1: T, d2: T|
                #[trigger] slots_wf(
                    s0.update(lo as int, VxGenSlot::Using { data: d1, generation: s0[lo as int].model().0 }).update(
                        hi as int,
                        VxGenSlot::Using { data: d2, generation: s0[hi as int].model().0 },
                    ),
                    self.free_head,
                    self.len,
                    self.free_order@,
                ) by {
                if swapped {
                    assert(s0.update(lo as int, VxGenSlot::Using { data: d1, generation: s0[lo as int].model().0 }).update(
                        hi as int,
                        VxGenSlot::Using { data: d2, generation: s0[hi as int].model().0 },
                    ) =~= s0.update(id1.index as int, VxGenSlot::Using { data: d2, generation: id1.generation }).update(
                        id2.index as int,
                        VxGenSlot::Using { data: d1, generation: id2.generation },
                    ));
                }
            }
        }
        let (a, b) = two_slots_mut(&mut self.slots, lo, hi);
        match (a, b) {
            (VxGenSlot::Using { data: da, .. }, VxGenSlot::Using { data: db, .. }) => {
                if swapped {
                    Some((db, da))
                } else {
                    Some((da, db))
                }
            },
            _ => None,
        }
    }

    /// Index of the last used slot, or `None`.
    fn last_index(&self) -> (r: Option<usize>)
        ensures
            r is Some <==> last_live_slot(self@) >= 0,
            r matches Some(i) ==> i as int == last_live_slot(self@),
    {
        let mut i = self.slots.len();
        assert(self@.take(i as int) =~= self@);
        while i > 0
            invariant
                i <= self.slots@.len(),
                last_live_slot(self@) == last_live_slot(self@.take(i as int)),
            decreases i,
        {
            let ghost t = self@.take(i as int);
            assert(t.drop_last() =~= self@.take(i - 1));
            assert(t.last() == self@[i - 1]);
            match &self.slots[i - 1] {
                VxGenSlot::Using { .. } => {
                    return Some(i - 1);
                },
                VxGenSlot::Free { .. } => {},
            }
            i = i - 1;
        }
        None
    }

    /// The value in the last used slot.
    pub fn last(&self) -> (r: Option<&T>)
        ensures
            r == (if last_live_slot(self@) >= 0 {
                Some(&self@[last_live_slot(self@)].1->0)
            } else {
                None
            }),
    {
        proof {
            assert(self@.take(self@.len() as int) =~= self@);
            lemma_last_slot(self@);
        }
        match self.last_index() {
            Some(i) => match &self.slots[i] {
                VxGenSlot::Using { data, .. } => Some(data),
                VxGenSlot::Free { .. } => None,
            },
            None => None,
        }
    }

    /// The handle of the value in the last used slot.
    pub fn last_id(&self) -> (r: Option<VxGenIndex>)
        ensures
            last_live_slot(self@) < 0 ==> r is None,
            last_live_slot(self@) >= 0 ==> (r matches Some(id) && id.slot() == last_live_slot(self@)
                && gen_live(self@, id)),
    {
        proof {
            assert(self@.take(self@.len() as int) =~= self@);
            lemma_last_slot(self@);
        }
        match self.last_index() {
            Some(i) => match &self.slots[i] {
                VxGenSlot::Using { generation, .. } => Some(VxGenIndex::new(i, *generation)),
                VxGenSlot::Free { generation, .. } => Some(VxGenIndex::new(i, *generation)),
            },
            None => None,
        }
    }

    /// Mutable access to the value in the last used slot.
    pub fn last_mut(&mut self) -> (r: Option<&mut T>)
        requires
            old(self).wf(),
        ensures
            final(self).wf(),
            final(self).free_list() == old(self).free_list(),
            last_live_slot(old(self)@) >= 0 ==> {
                &&& r is Some
                &&& *r.unwrap() == old(self)@[last_live_slot(old(self)@)].1->0
                &&& final(self)@ == old(self)@.update(
                    last_live_slot(old(self)@),
                    (old(self)@[last_live_slot(old(self)@)].0, Some(*final(r.unwrap()))),
                )
            },
            last_live_slot(old(self)@) < 0 ==> r is None && final(self)@ == old(self)@,
    {
        match self.last_id() {
            Some(id) => self.get_mut(id),
            None => None,
        }
    }

    /// Capacity of the slot storage.
    pub fn capacity(&self) -> (r: usize)
        ensures
            r >= self@.len(),
    {
        vec_capacity(&self.slots)
    }

    /// Iterates over the stored values in slot order.
    pub fn iter(&self) -> (it: VxGenIterator<'_, T>)
        ensures
            it.remaining() == live_items(self@),
    {
        let it = VxGenIterator { slots: &self.slots, pos: 0 };
        assert(slots_model(self.slots@).skip(0) =~= self@);
        it
    }

    /// Iterates over the handles and stored values in slot order.
    pub fn iter_with_id(&self) -> (it: VxGenIteratorWithId<'_, T>)
        ensures
            it.remaining() == gen_items_with_id(self@, 0),
    {
        let it = VxGenIteratorWithId { slots: &self.slots, pos: 0 };
        assert(slots_model(self.slots@).skip(0) =~= self@);
        it
    }

    /// Iterates mutably over the stored values in slot order.
    pub fn iter_mut(&mut self) -> (it: VxGenIteratorMut<'_, T>)
        ensures
            it.remaining() == live_items(old(self)@),
    {
        let it = VxGenIteratorMut { rest: Some(self.slots.as_mut_slice()) };
        assert(slots_model(old(self).slots@).skip(0) =~= old(self)@);
        it
    }

    /// Iterates mutably over the handles and stored values in slot order.
    pub fn iter_with_id_mut(&mut self) -> (it: VxgenIteratorWithIdMut<'_, T>)
        ensures
            it.remaining() == gen_items_with_id(old(self)@, 0),
    {
        let _n = self.slots.len();
        let it = VxgenIteratorWithIdMut { rest: Some(self.slots.as_mut_slice()), pos: 0 };
        assert(slots_model(old(self).slots@).skip(0) =~= old(self)@);
        it
    }

    /// Whether `id` names a stored value.
    pub fn contains(&self, id: VxGenIndex) -> (r: bool)
        ensures
            r == gen_live(self@, id),
    {
        if id.index >= self.slots.len() {
            return false;
        }
        match &self.slots[id.index] {
            VxGenSlot::Using { generation, .. } => *generation == id.generation,
            VxGenSlot::Free { .. } => false,
        }
    }

    /// Number of stored values.
    pub fn len(&self) -> (r: usize)
        requires
            self.wf(),
        ensures
            r == live_count(self@),
    {
        self.len
    }

    /// Whether no value is stored.
    pub fn is_empty(&self) -> (r: bool)
        requires
            self.wf(),
        ensures
            r == (live_count(self@) == 0),
    {
        self.len == 0
    }

    /// Number of slots, used or free.
    pub fn available_length(&self) -> (r: usize)
        ensures
            r == self@.len(),
    {
        self.slots.len()
    }

    /// Number of free slots.
    pub fn free_slot_count(&self) -> (r: usize)
        requires
            self.wf(),
        ensures
            r == self@.len() - live_count(self@),
    {
        proof {
            lemma_count_le_len(self@);
        }
        self.available_length() - self.len()
    }

    /// Removes every slot; generations restart from zero afterwards.
    pub fn clear(&mut self)
        ensures
            final(self).wf(),
            final(self)@ == Seq::<VxSlotModel<T>>::empty(),
            final(self).free_list() == Seq::<usize>::empty(),
    {
        self.slots.clear();
        self.free_head = None;
        self.len = 0;
        self.free_order = Ghost(Seq::empty());
        assert(self@ =~= Seq::<VxSlotModel<T>>::empty());
    }
}

/// Iterator over the stored values of a [`VxGenVector`], in slot order.
pub struct VxGenIterator<'a, T> {
    slots: &'a Vec<VxGenSlot<T>>,
    pos: usize,
}

impl<'a, T> VxGenIterator<'a, T> {
    /// The values still to come.
    pub closed spec fn remaining(&self) -> Seq<T> {
        if self.pos <= self.slots@.len() {
            live_items(slots_model(self.slots@).skip(self.pos as int))
        } else {
            Seq::empty()
        }
    }

    /// The next stored value.
    pub fn next(&mut self) -> (r: Option<&'a T>)
        ensures
            old(self).remaining().len() == 0 ==> r is None && final(self).remaining().len() == 0,
            old(self).remaining().len() > 0 ==> {
                &&& r == Some(&old(self).remaining()[0])
                &&& final(self).remaining() == old(self).remaining().drop_first()
            },
    {
        let slots: &'a Vec<VxGenSlot<T>> = self.slots;
        if self.pos > slots.len() {
            return None;
        }
        while self.pos < slots.len()
            invariant
                self.slots == slots,
                self.pos <= slots@.len(),
                self.remaining() == old(self).remaining(),
            decreases slots@.len() - self.pos,
        {
            let p = self.pos;
            proof {
                lemma_items_step(slots_model(slots@), p as int);
            }
            self.pos = p + 1;
            match &slots[p] {
                VxGenSlot::Using { data, .. } => {
                    return Some(data);
                },
                VxGenSlot::Free { .. } => {},
            }
        }
        proof {
            lemma_items_end(slots_model(slots@));
        }
        None
    }
}

/// Iterator over the handles and stored values of a [`VxGenVector`], in slot
/// order.
pub struct VxGenIteratorWithId<'a, T> {
    slots: &'a Vec<VxGenSlot<T>>,
    pos: usize,
}

impl<'a, T> VxGenIteratorWithId<'a, T> {
    /// The handles and values still to come.
    pub closed spec fn remaining(&self) -> Seq<(VxGenIndex, T)> {
        if self.pos <= self.slots@.len() {
            gen_items_with_id(slots_model(self.slots@).skip(self.pos as int), self.pos as int)
        } else {
            Seq::empty()
        }
    }

    /// The next handle and stored value.
    pub fn next(&mut self) -> (r: Option<(VxGenIndex, &'a T)>)
        ensures
            old(self).remaining().len() == 0 ==> r is None && final(self).remaining().len() == 0,
            old(self).remaining().len() > 0 ==> {
                &&& r == Some((old(self).remaining()[0].0, &old(self).remaining()[0].1))
                &&& final(self).remaining() == old(self).remaining().drop_first()
            },
    {
        let slots: &'a Vec<VxGenSlot<T>> = self.slots;
        if self.pos > slots.len() {
            return None;
        }
        while self.pos < slots.len()
            invariant
                self.slots == slots,
                self.pos <= slots@.len(),
                self.remaining() == old(self).remaining(),
            decreases slots@.len() - self.pos,
        {
            let p = self.pos;
            proof {
                lemma_items_with_id_step(slots_model(slots@), p as int);
            }
            self.pos = p + 1;
            match &slots[p] {
                VxGenSlot::Using { data, generation } => {
                    return Some((VxGenIndex { index: p, generation: *generation }, data));
                },
                VxGenSlot::Free { .. } => {},
            }
        }
        proof {
            lemma_items_with_id_end(slots_model(slots@));
        }
        None
    }
}

/// Mutable iterator over the stored values of a [`VxGenVector`], in slot
/// order.
pub struct VxGenIteratorMut<'a, T> {
    rest: Option<&'a mut [VxGenSlot<T>]>,
}

impl<'a, T> VxGenIteratorMut<'a, T> {
    /// The values still to come, as they are now.
    pub closed spec fn remaining(&self) -> Seq<T> {
        match self.rest {
            Some(r) => live_items(slots_model(r@)),
            None => Seq::empty(),
        }
    }

    /// The next stored value.
    pub fn next(&mut self) -> (r: Option<&'a mut T>)
        ensures
            old(self).remaining().len() == 0 ==> r is None && final(self).remaining().len() == 0,
            old(self).remaining().len() > 0 ==> {
                &&& r is Some
                &&& *r.unwrap() == old(self).remaining()[0]
                &&& final(self).remaining() == old(self).remaining().drop_first()
            },
    {
        loop
            invariant
                self.remaining() == old(self).remaining(),
            decreases (match self.rest {
                Some(r) => r@.len(),
                None => 0,
            }),
        {
            let cur = self.rest.take();
            match cur {
                None => {
                    return None;
                },
                Some(s) => {
                    if s.len() == 0 {
                        assert(slots_model(s@) =~= Seq::<VxSlotModel<T>>::empty());
                        return None;
                    }
                    let ghost sm = slots_model(s@);
                    let (head, tail) = s.split_at_mut(1);
                    proof {
                        assert(sm.drop_first() =~= slots_model(tail@));
                        assert(sm[0] == head@[0].model());
                    }
                    self.rest = Some(tail);
                    let h = head.first_mut().unwrap();
                    match h {
                        VxGenSlot::Using { data, .. } => {
                            return Some(data);
                        },
                        VxGenSlot::Free { .. } => {},
                    }
                },
            }
        }
    }
}

/// Mutable iterator over the handles and stored values of a
/// [`VxGenVector`], in slot order.
pub struct VxgenIteratorWithIdMut<'a, T> {
    rest: Option<&'a mut [VxGenSlot<T>]>,
    pos: usize,
}

impl<'a, T> VxgenIteratorWithIdMut<'a, T> {
    /// The handles and values still to come, as they are now.
    pub closed spec fn remaining(&self) -> Seq<(VxGenIndex, T)> {
        match self.rest {
            Some(r) => if self.pos + r@.len() <= usize::MAX {
                gen_items_with_id(slots_model(r@), self.pos as int)
            } else {
                Seq::empty()
            },
            None => Seq::empty(),
        }
    }

    /// The next handle and stored value.
    pub fn next(&mut self) -> (r: Option<(VxGenIndex, &'a mut T)>)
        ensures
            old(self).remaining().len() == 0 ==> r is None && final(self).remaining().len() == 0,
            old(self).remaining().len() > 0 ==> {
                &&& r is Some
                &&& r.unwrap().0 == old(self).remaining()[0].0
                &&& *r.unwrap().1 == old(self).remaining()[0].1
                &&& final(self).remaining() == old(self).remaining().drop_first()
            },
    {
        loop
            invariant
                self.remaining() == old(self).remaining(),
            decreases (match self.rest {
                Some(r) => r@.len(),
                None => 0,
            }),
        {
            let cur = self.rest.take();
            match cur {
                None => {
                    return None;
                },
                Some(s) => {
                    if s.len() == 0 || s.len() > usize::MAX - self.pos {
                        assert(s@.len() == 0 ==> slots_model(s@) =~= Seq::<VxSlotModel<T>>::empty());
                        return None;
                    }
                    let ghost sm = slots_model(s@);
                    let p = self.pos;
                    let (head, tail) = s.split_at_mut(1);
                    proof {
                        assert(sm.drop_first() =~= slots_model(tail@));
                        assert(sm[0] == head@[0].model());
                    }
                    self.rest = Some(tail);
                    self.pos = p + 1;
                    let h = head.first_mut().unwrap();
                    match h {
                        VxGenSlot::Using { data, generation } => {
                            let id = VxGenIndex { index: p, generation: *generation };
                            return Some((id, data));
                        },
                        VxGenSlot::Free { .. } => {},
                    }
                },
            }
        }
    }
}

} // verus!
