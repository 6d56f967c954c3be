//! The queue of dirty marks of a scene: an `ahash` map from a widget's key to
//! the flag bits marked on it since the last dirty check. Marks of one widget
//! accumulate into one entry.
use vstd::prelude::*;

use ahash::AHashMap;
use ahash::RandomState;

use crate::abstractions::abstract_widgets::{VxDirtyFlag, VxWidgetId};
use crate::types::gen_vector::VxGenIndex;

verus! {

/// Key of a widget in the queue: the slot and generation of its handle.
pub type VxDirtyKey = (usize, u64);

/// `ahash::AHashMap`, a `HashMap` with `ahash`'s hasher; opaque here, its
/// contents are named by `dirty_entries`.
#[verifier::external_type_specification]
#[verifier::external_body]
#[verifier::reject_recursive_types(K)]
#[verifier::reject_recursive_types(V)]
#[verifier::reject_recursive_types(S)]
pub struct ExAHashMap<K, V, S>(AHashMap<K, V, S>);

/// `ahash::RandomState`, the hasher of an `AHashMap`; opaque here.
#[verifier::external_type_specification]
#[verifier::external_body]
pub struct ExRandomState(RandomState);

/// No widget marked.
pub open spec fn no_marks() -> Map<VxDirtyKey, u32> {
    Map::empty()
}

/// What a dirty map holds: flag bits by widget key.
pub uninterp spec fn dirty_entries(m: AHashMap<VxDirtyKey, u32>) -> Map<VxDirtyKey, u32>;

/// `AHashMap::new`: a map with nothing in it.
#[verifier::external_body]
fn dirty_map_new() -> (fresh: AHashMap<VxDirtyKey, u32>)
    ensures
        dirty_entries(fresh) == no_marks(),
{
    AHashMap::new()
}

/// `AHashMap::get`: the bits stored under `k`, if any.
#[verifier::external_body]
fn dirty_map_get(m: &AHashMap<VxDirtyKey, u32>, k: VxDirtyKey) -> (r: Option<u32>)
    ensures
        r == (if dirty_entries(*m).contains_key(k) {
            Some(dirty_entries(*m)[k])
        } else {
            None
        }),
{
    m.get(&k).copied()
}

/// `AHashMap::insert`: stores `v` under `k`, replacing what was there.
#[verifier::external_body]
fn dirty_map_insert(m: &mut AHashMap<VxDirtyKey, u32>, k: VxDirtyKey, v: u32)
    ensures
        dirty_entries(*final(m)) == dirty_entries(*old(m)).insert(k, v),
{
    m.insert(k, v);
}

/// `AHashMap::into_iter`: every entry of the map once, in an order that the
/// map's hasher decides; the order is left open.
#[verifier::external_body]
fn dirty_map_into_vec(m: AHashMap<VxDirtyKey, u32>) -> (r: Vec<(VxDirtyKey, u32)>)
    ensures
        forall|i: int|
            0 <= i < r@.len() ==> dirty_entries(m).contains_key(#[trigger] r@[i].0) && dirty_entries(m)[r@[i].0]
                == r@[i].1,
        forall|k: VxDirtyKey| dirty_entries(m).contains_key(k) ==> exists|i: int| 0 <= i < r@.len() && #[trigger] r@[i].0 == k,
        forall|i: int, j: int| 0 <= i < j < r@.len() ==> r@[i].0 != r@[j].0,
{
    m.into_iter().collect()
}

/// The key of a widget.
pub open spec fn key_of(id: VxWidgetId) -> VxDirtyKey {
    (id.handle().slot() as usize, id.handle().gen())
}

/// The queue `q` after marking the widget with key `k` with `bits`: the bits
/// join those already pending for it.
pub open spec fn marked(q: Map<VxDirtyKey, u32>, k: VxDirtyKey, bits: u32) -> Map<VxDirtyKey, u32> {
    q.insert(
        k,
        if q.contains_key(k) {
            q[k] | bits
        } else {
            bits
        },
    )
}

fn widget_key(id: VxWidgetId) -> (k: VxDirtyKey)
    ensures
        k == key_of(id),
{
    let h = id.id();
    (h.raw_index(), h.generation())
}

/// Widgets with pending dirty marks.
pub struct VxDirtyQueue {
    map: AHashMap<VxDirtyKey, u32>,
}

impl VxDirtyQueue {
    /// The pending bits of each marked widget, by key.
    pub closed spec fn pending(&self) -> Map<VxDirtyKey, u32> {
        dirty_entries(self.map)
    }

    /// An empty queue.
    pub fn new() -> (q: Self)
        ensures
            q.pending() == no_marks(),
    {
        Self { map: dirty_map_new() }
    }

    /// Marks `id` with `flag`.
    pub fn mark_dirty(&mut self, id: VxWidgetId, flag: VxDirtyFlag)
        ensures
            final(self).pending() == marked(old(self).pending(), key_of(id), flag@),
    {
        let k = widget_key(id);
        let bits = match dirty_map_get(&self.map, k) {
            Some(b) => b | flag.bits(),
            None => flag.bits(),
        };
        dirty_map_insert(&mut self.map, k, bits);
    }

    /// Takes the pending marks out, each widget once, in no particular order,
    /// and leaves the queue empty.
    pub fn take(&mut self) -> (r: Vec<(VxWidgetId, VxDirtyFlag)>)
        ensures
            final(self).pending() == no_marks(),
            forall|i: int|
                0 <= i < r@.len() ==> old(self).pending().contains_key(key_of(#[trigger] r@[i].0))
                    && old(self).pending()[key_of(r@[i].0)] == r@[i].1@,
            forall|k: VxDirtyKey|
                old(self).pending().contains_key(k) ==> exists|i: int| 0 <= i < r@.len() && key_of(#[trigger] r@[i].0) == k,
            forall|i: int, j: int| 0 <= i < j < r@.len() ==> r@[i].0 != r@[j].0,
    {
        let mut m = dirty_map_new();
        std::mem::swap(&mut m, &mut self.map);
        let raw = dirty_map_into_vec(m);
        let mut out: Vec<(VxWidgetId, VxDirtyFlag)> = Vec::new();
        let mut i: usize = 0;
        while i < raw.len()
            invariant
                i <= raw@.len(),
                out@.len() == i,
                forall|j: int|
                    0 <= j < i ==> key_of(#[trigger] out@[j].0) == raw@[j].0 && out@[j].1@ == raw@[j].1,
            decreases raw@.len() - i,
        {
            let (k, bits) = raw[i];
            let id = VxWidgetId::new(VxGenIndex::new(k.0, k.1));
            out.push((id, VxDirtyFlag::from_bits_retain(bits)));
            i = i + 1;
        }
        proof {
            assert forall|k: VxDirtyKey| old(self).pending().contains_key(k) implies exists|i: int|
                0 <= i < out@.len() && key_of(#[trigger] out@[i].0) == k by {
                let i = choose|i: int| 0 <= i < raw@.len() && #[trigger] raw@[i].0 == k;
                assert(key_of(out@[i].0) == raw@[i].0);
            }
            assert forall|i: int, j: int| 0 <= i < j < out@.len() implies out@[i].0 != out@[j].0 by {
                assert(key_of(out@[i].0) == raw@[i].0);
                assert(key_of(out@[j].0) == raw@[j].0);
            }
        }
        out
    }
}

/// Marking a widget twice pends the union of both flags, as one mark with
/// the union would.
pub proof fn law_marks_merge(q: Map<VxDirtyKey, u32>, k: VxDirtyKey, f1: u32, f2: u32)
    ensures
        marked(marked(q, k, f1), k, f2) == marked(q, k, f1 | f2),
        marked(marked(q, k, f1), k, f2)[k] & (f1 | f2) == f1 | f2,
{
    if q.contains_key(k) {
        let x = q[k];
        assert((x | f1) | f2 == x | (f1 | f2)) by (bit_vector);
        assert((x | (f1 | f2)) & (f1 | f2) == f1 | f2) by (bit_vector);
    } else {
        assert((f1 | f2) & (f1 | f2) == f1 | f2) by (bit_vector);
    }
    assert(marked(marked(q, k, f1), k, f2) =~= marked(q, k, f1 | f2));
}

/// Marks of two different widgets do not interfere: their order does not
/// matter.
pub proof fn law_marks_commute(q: Map<VxDirtyKey, u32>, k1: VxDirtyKey, f1: u32, k2: VxDirtyKey, f2: u32)
    requires
        k1 != k2,
    ensures
        marked(marked(q, k1, f1), k2, f2) == marked(marked(q, k2, f2), k1, f1),
{
    assert(marked(marked(q, k1, f1), k2, f2) =~= marked(marked(q, k2, f2), k1, f1));
}

/// Two widgets share a key only when they are the same widget.
pub proof fn lemma_key_of_injective(a: VxWidgetId, b: VxWidgetId)
    ensures
        key_of(a) == key_of(b) ==> a == b,
{
    VxWidgetId::lemma_eq(a, b);
    VxGenIndex::lemma_eq(a.handle(), b.handle());
    VxGenIndex::lemma_eq(b.handle(), a.handle());
    if key_of(a) == key_of(b) {
        assert(a.handle().slot() == b.handle().slot());
    }
}

} // verus!
