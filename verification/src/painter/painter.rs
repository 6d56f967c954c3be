//! The painter's vertex batches and how the painter assigns depths: the
//! plain, rounded-rectangle and texture batches painted since the last
//! assignment get the depth of the widget that painted them. Text entries are
//! not given a depth; their depths only decide from where the texture batches
//! are assigned once more.
use vstd::prelude::*;

use crate::types::render_commands::VxVertexZValue as VxTextZValue;

verus! {

/// Depth of a batch; `Disable` until assigned.
#[derive(Clone, Copy, PartialEq, Eq, Debug, Structural)]
pub enum VxVertexZValue {
    Disable,
    Enable { z: i32 },
}

impl Default for VxVertexZValue {
    fn default() -> (r: Self)
        ensures
            r == VxVertexZValue::Disable,
    {
        VxVertexZValue::Disable
    }
}

/// The depth that a z-value stands for: 0 when none is assigned.
pub open spec fn painter_z_of(z: VxVertexZValue) -> i32 {
    match z {
        VxVertexZValue::Disable => 0,
        VxVertexZValue::Enable { z } => z,
    }
}

impl VxVertexZValue {
    /// The depth, 0 when none is assigned.
    pub fn z_value(&self) -> (r: i32)
        ensures
            r == painter_z_of(*self),
    {
        match self {
            VxVertexZValue::Disable => 0,
            VxVertexZValue::Enable { z } => *z,
        }
    }
}

/// A batch of painted vertices with 16-bit indices.
pub struct VxVertexContainer<T> {
    verts: Vec<T>,
    index: Vec<u16>,
    z_value: VxVertexZValue,
}

impl<T> VxVertexContainer<T> {
    /// The vertices.
    pub closed spec fn verts_view(&self) -> Seq<T> {
        self.verts@
    }

    /// The indices.
    pub closed spec fn index_view(&self) -> Seq<u16> {
        self.index@
    }

    /// The depth setting.
    pub closed spec fn z_view(&self) -> VxVertexZValue {
        self.z_value
    }

    /// A batch without a depth.
    pub fn new(verts: Vec<T>, index: Vec<u16>) -> (c: Self)
        ensures
            c.verts_view() == verts@,
            c.index_view() == index@,
            c.z_view() == VxVertexZValue::Disable,
    {
        Self { verts, index, z_value: VxVertexZValue::Disable }
    }

    /// Takes the vertices out.
    pub fn verts(&mut self) -> (v: Vec<T>)
        ensures
            v@ == old(self).verts_view(),
            final(self).verts_view() == Seq::<T>::empty(),
            final(self).index_view() == old(self).index_view(),
            final(self).z_view() == old(self).z_view(),
    {
        let mut v = Vec::new();
        std::mem::swap(&mut v, &mut self.verts);
        v
    }

    /// Takes the indices out.
    pub fn index(&mut self) -> (v: Vec<u16>)
        ensures
            v@ == old(self).index_view(),
            final(self).index_view() == Seq::<u16>::empty(),
            final(self).verts_view() == old(self).verts_view(),
            final(self).z_view() == old(self).z_view(),
    {
        let mut v = Vec::new();
        std::mem::swap(&mut v, &mut self.index);
        v
    }

    /// The depth, 0 when none is assigned.
    pub fn z_value(&self) -> (r: i32)
        ensures
            r == painter_z_of(self.z_view()),
    {
        self.z_value.z_value()
    }

    /// Whether a depth is assigned.
    pub fn is_z_enable(&self) -> (r: bool)
        ensures
            r == (self.z_view() != VxVertexZValue::Disable),
    {
        self.z_value != VxVertexZValue::Disable
    }

    /// Assigns a depth.
    pub fn set_z_value(&mut self, z: i32)
        ensures
            final(self).z_view() == (VxVertexZValue::Enable { z }),
            final(self).verts_view() == old(self).verts_view(),
            final(self).index_view() == old(self).index_view(),
    {
        self.z_value = VxVertexZValue::Enable { z };
    }
}

/// The batches with a depth come first, those without after them.
pub open spec fn z_partitioned<T>(cs: Seq<VxVertexContainer<T>>) -> bool {
    forall|i: int, j: int|
        0 <= i < j < cs.len() && cs[j].z_view() != VxVertexZValue::Disable ==> cs[i].z_view()
            != VxVertexZValue::Disable
}

/// Number of batches with a depth, for batches that have them first: the
/// first batch without one.
pub fn z_partition_point<T>(cs: &Vec<VxVertexContainer<T>>) -> (p: usize)
    requires
        z_partitioned(cs@),
    ensures
        p <= cs@.len(),
        forall|i: int| 0 <= i < p ==> (#[trigger] cs@[i]).z_view() != VxVertexZValue::Disable,
        forall|i: int| p <= i < cs@.len() ==> (#[trigger] cs@[i]).z_view() == VxVertexZValue::Disable,
{
    let mut p: usize = 0;
    while p < cs.len() && cs[p].is_z_enable()
        invariant
            p <= cs@.len(),
            forall|i: int| 0 <= i < p ==> (#[trigger] cs@[i]).z_view() != VxVertexZValue::Disable,
        decreases cs@.len() - p,
    {
        p = p + 1;
    }
    p
}

/// Assigns depth `z` to every batch from `start` on.
pub fn set_z_from<T>(cs: &mut Vec<VxVertexContainer<T>>, start: usize, z: i32)
    requires
        start <= old(cs)@.len(),
    ensures
        final(cs)@.len() == old(cs)@.len(),
        forall|i: int| 0 <= i < start ==> #[trigger] final(cs)@[i] == old(cs)@[i],
        forall|i: int|
            start <= i < old(cs)@.len() ==> {
                &&& (#[trigger] final(cs)@[i]).z_view() == (VxVertexZValue::Enable { z })
                &&& final(cs)@[i].verts_view() == old(cs)@[i].verts_view()
                &&& final(cs)@[i].index_view() == old(cs)@[i].index_view()
            },
{
    let mut i = start;
    while i < cs.len()
        invariant
            start <= i <= cs@.len(),
            cs@.len() == old(cs)@.len(),
            forall|j: int| 0 <= j < start ==> #[trigger] cs@[j] == old(cs)@[j],
            forall|j: int| i <= j < cs@.len() ==> #[trigger] cs@[j] == old(cs)@[j],
            forall|j: int|
                start <= j < i ==> {
                    &&& (#[trigger] cs@[j]).z_view() == (VxVertexZValue::Enable { z })
                    &&& cs@[j].verts_view() == old(cs)@[j].verts_view()
                    &&& cs@[j].index_view() == old(cs)@[j].index_view()
                },
        decreases cs@.len() - i,
    {
        cs[i].set_z_value(z);
        i = i + 1;
    }
}

/// Assigns depth `z` to the batches painted since the last assignment, and
/// returns where they start. Afterwards every batch has a depth.
pub fn assign_pending_z<T>(cs: &mut Vec<VxVertexContainer<T>>, z: i32) -> (p: usize)
    requires
        z_partitioned(old(cs)@),
    ensures
        p <= old(cs)@.len(),
        final(cs)@.len() == old(cs)@.len(),
        forall|i: int| 0 <= i < p ==> #[trigger] final(cs)@[i] == old(cs)@[i],
        forall|i: int| 0 <= i < p ==> (#[trigger] old(cs)@[i]).z_view() != VxVertexZValue::Disable,
        forall|i: int|
            p <= i < old(cs)@.len() ==> {
                &&& (#[trigger] old(cs)@[i]).z_view() == VxVertexZValue::Disable
                &&& final(cs)@[i].z_view() == (VxVertexZValue::Enable { z })
                &&& final(cs)@[i].verts_view() == old(cs)@[i].verts_view()
                &&& final(cs)@[i].index_view() == old(cs)@[i].index_view()
            },
        z_partitioned(final(cs)@),
{
    let p = z_partition_point(cs);
    set_z_from(cs, p, z);
    p
}

/// The text entries with a depth come first.
pub open spec fn text_z_partitioned(zs: Seq<VxTextZValue>) -> bool {
    forall|i: int, j: int| 0 <= i < j < zs.len() && zs[j] != VxTextZValue::Disable ==> zs[i] != VxTextZValue::Disable
}

/// Number of text entries with a depth, for entries that have them first.
pub fn text_z_partition_point(zs: &Vec<VxTextZValue>) -> (p: usize)
    requires
        text_z_partitioned(zs@),
    ensures
        p <= zs@.len(),
        forall|i: int| 0 <= i < p ==> #[trigger] zs@[i] != VxTextZValue::Disable,
        forall|i: int| p <= i < zs@.len() ==> #[trigger] zs@[i] == VxTextZValue::Disable,
{
    let mut p: usize = 0;
    while p < zs.len() && zs[p] != VxTextZValue::Disable
        invariant
            p <= zs@.len(),
            forall|i: int| 0 <= i < p ==> #[trigger] zs@[i] != VxTextZValue::Disable,
        decreases zs@.len() - p,
    {
        p = p + 1;
    }
    p
}

/// A batch's depth after a depth assignment: `z` when it had none.
pub open spec fn assigned_z(old_z: VxVertexZValue, z: i32) -> VxVertexZValue {
    if old_z == VxVertexZValue::Disable {
        VxVertexZValue::Enable { z }
    } else {
        old_z
    }
}

/// `new` is `old` with depth `z` assigned to the batches without one.
pub open spec fn pending_assigned<T>(old: Seq<VxVertexContainer<T>>, new: Seq<VxVertexContainer<T>>, z: i32) -> bool {
    &&& new.len() == old.len()
    &&& forall|i: int|
        0 <= i < old.len() ==> {
            &&& (#[trigger] new[i]).z_view() == assigned_z(old[i].z_view(), z)
            &&& new[i].verts_view() == old[i].verts_view()
            &&& new[i].index_view() == old[i].index_view()
        }
}

/// Assigns depth `z` after a widget has painted: the plain, rounded-rectangle
/// and texture batches without a depth get `z`. Then every texture batch from
/// position `p` on gets `z` again, where `p` is the number of text entries
/// that have a depth (`text_z` holds the depths of the text entries), so a
/// texture batch that already had a depth can be given `z` too. The text
/// entries are not changed and get no depth here.
pub fn set_vertex_z_value<A, B, C>(
    vertices: &mut Vec<VxVertexContainer<A>>,
    sdf_verts: &mut Vec<VxVertexContainer<B>>,
    tex_verts: &mut Vec<VxVertexContainer<C>>,
    text_z: &Vec<VxTextZValue>,
    z: i32,
)
    requires
        z_partitioned(old(vertices)@),
        z_partitioned(old(sdf_verts)@),
        z_partitioned(old(tex_verts)@),
        text_z_partitioned(text_z@),
        old(tex_verts)@.len() < text_z@.len() ==> text_z@[old(tex_verts)@.len() as int] == VxTextZValue::Disable,
    ensures
        pending_assigned(old(vertices)@, final(vertices)@, z),
        pending_assigned(old(sdf_verts)@, final(sdf_verts)@, z),
        final(tex_verts)@.len() == old(tex_verts)@.len(),
        forall|i: int|
            0 <= i < old(tex_verts)@.len() ==> {
                &&& (#[trigger] final(tex_verts)@[i]).z_view() == (if i < text_z@.len() && text_z@[i]
                    != VxTextZValue::Disable {
                    assigned_z(old(tex_verts)@[i].z_view(), z)
                } else {
                    VxVertexZValue::Enable { z }
                })
                &&& final(tex_verts)@[i].verts_view() == old(tex_verts)@[i].verts_view()
                &&& final(tex_verts)@[i].index_view() == old(tex_verts)@[i].index_view()
            },
{
    assign_pending_z(vertices, z);
    assign_pending_z(sdf_verts, z);
    let ghost t0 = tex_verts@;
    assign_pending_z(tex_verts, z);
    let ghost t1 = tex_verts@;
    let text_point = text_z_partition_point(text_z);
    proof {
        if text_point > t1.len() {
            assert(text_z@[t1.len() as int] != VxTextZValue::Disable);
        }
    }
    set_z_from(tex_verts, text_point, z);
    proof {
        assert forall|i: int| 0 <= i < t0.len() implies (#[trigger] tex_verts@[i]).z_view() == (if i < text_z@.len()
            && text_z@[i] != VxTextZValue::Disable {
            assigned_z(t0[i].z_view(), z)
        } else {
            VxVertexZValue::Enable { z }
        }) by {
            if i < text_point {
                assert(text_z@[i] != VxTextZValue::Disable);
            } else if i < text_z@.len() {
                assert(text_z@[i] == VxTextZValue::Disable);
            }
        }
    }
}

} // verus!
