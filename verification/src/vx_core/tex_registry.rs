//! Registry from texture label hashes to texture slots.
use vstd::prelude::*;

use std::collections::HashMap;

use crate::types::genelational_vector::VxGenIndex;

verus! {

broadcast use vstd::std_specs::hash::group_hash_axioms;

/// Hash of a texture label.
pub type VxTextureLabelHash = u64;

/// Texture slots by label hash.
pub struct VxTextureRegistry {
    cache: HashMap<VxTextureLabelHash, VxGenIndex>,
}

impl View for VxTextureRegistry {
    type V = Map<VxTextureLabelHash, VxGenIndex>;

    closed spec fn view(&self) -> Map<VxTextureLabelHash, VxGenIndex> {
        self.cache@
    }
}

impl VxTextureRegistry {
    /// An empty registry.
    pub fn new() -> (r: Self)
        ensures
            r@ == Map::<VxTextureLabelHash, VxGenIndex>::empty(),
    {
        Self { cache: HashMap::new() }
    }

    /// The slot registered for `id`.
    pub fn get_slot(&self, id: VxTextureLabelHash) -> (r: Option<VxGenIndex>)
        ensures
            r == (if self@.contains_key(id) {
                Some(self@[id])
            } else {
                None
            }),
    {
        match self.cache.get(&id) {
            Some(v) => Some(*v),
            None => None,
        }
    }

    /// Registers (or replaces) the slot for `id`.
    pub fn register(&mut self, id: VxTextureLabelHash, index: VxGenIndex)
        ensures
            final(self)@ == old(self)@.insert(id, index),
    {
        self.cache.insert(id, index);
    }

    /// Forgets `id`.
    pub fn remove(&mut self, id: VxTextureLabelHash)
        ensures
            final(self)@ == old(self)@.remove(id),
    {
        self.cache.remove(&id);
    }

    /// Only finitely many labels are registered.
    pub proof fn lemma_finite(&self)
        ensures
            self@.dom().finite(),
    {
        vstd::std_specs::hash::axiom_hashmap_view_finite_dom(self.cache);
    }

    /// Number of registered labels, truncated to 32 bits.
    pub fn len(&self) -> (r: u32)
        ensures
            r as int == self@.len() % 0x1_0000_0000,
    {
        let n = self.cache.len();
        assert((n as u32) as int == (n as int) % 0x1_0000_0000) by (bit_vector);
        n as u32
    }
}

/// Registering a slot for a label makes the label read that slot; removing the
/// label afterwards makes it read nothing and drops one label from the count
/// (from the 32-bit count too, below 2^32 labels), and every other label reads
/// what it read before.
pub proof fn law_register_then_remove(m: Map<VxTextureLabelHash, VxGenIndex>, k: VxTextureLabelHash, i: VxGenIndex)
    requires
        m.dom().finite(),
    ensures
        m.insert(k, i).contains_key(k),
        m.insert(k, i)[k] == i,
        !m.insert(k, i).remove(k).contains_key(k),
        m.insert(k, i).remove(k).len() + 1 == m.insert(k, i).len(),
        m.insert(k, i).len() <= u32::MAX ==> m.insert(k, i).remove(k).len() % 0x1_0000_0000 + 1
            == m.insert(k, i).len() % 0x1_0000_0000,
        forall|k2: VxTextureLabelHash|
            k2 != k ==> (#[trigger] m.insert(k, i).remove(k).contains_key(k2) <==> m.contains_key(k2)),
        forall|k2: VxTextureLabelHash|
            k2 != k && #[trigger] m.contains_key(k2) ==> m.insert(k, i).remove(k)[k2] == m[k2],
{
    let m1 = m.insert(k, i);
    assert(m1.dom().finite());
    assert(m1.dom().contains(k));
    assert(m1.remove(k).dom() =~= m1.dom().remove(k));
}

} // verus!
