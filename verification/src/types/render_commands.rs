//! Draw commands: vertex batches with their depth, and the draw lines that
//! the renderer issues per module.
use vstd::prelude::*;

verus! {

/// Whether geometry belongs to the retained scene or to the per-frame
/// immediate layer.
#[derive(Clone, Copy, PartialEq, Eq, Debug, Hash, PartialOrd, Ord, Structural)]
pub enum VxRenderMode {
    Retained,
    Immediate,
}

impl Default for VxRenderMode {
    fn default() -> (r: Self)
        ensures
            r == VxRenderMode::Retained,
    {
        VxRenderMode::Retained
    }
}

/// Depth of a batch of geometry; `Disable` until the painter assigns one.
#[derive(Clone, Copy, PartialEq, Eq, Debug, Hash, Structural)]
pub enum VxVertexZValue {
    Disable,
    Enable { z: i32 },
}

impl Default for VxVertexZValue {
    fn default() -> (r: Self)
        ensures
            r == VxVertexZValue::Disable,
    {
        VxVertexZValue::Disable
    }
}

/// The depth that a z-value stands for: 0 when none is assigned.
pub open spec fn z_of(z: VxVertexZValue) -> i32 {
    match z {
        VxVertexZValue::Disable => 0,
        VxVertexZValue::Enable { z } => z,
    }
}

impl VxVertexZValue {
    /// The depth, 0 when none is assigned.
    pub fn z_value(&self) -> (r: i32)
        ensures
            r == z_of(*self),
    {
        match self {
            VxVertexZValue::Disable => 0,
            VxVertexZValue::Enable { z } => *z,
        }
    }
}

/// A batch of vertices with its triangle indices and depth.
pub struct VxVertexContainer<T> {
    pub(crate) verts: Vec<T>,
    pub(crate) index: Vec<u32>,
    z_value: VxVertexZValue,
}

impl<T> VxVertexContainer<T> {
    /// The vertices.
    pub closed spec fn verts_view(&self) -> Seq<T> {
        self.verts@
    }

    /// The indices.
    pub closed spec fn index_view(&self) -> Seq<u32> {
        self.index@
    }

    /// The depth setting.
    pub closed spec fn z_view(&self) -> VxVertexZValue {
        self.z_value
    }

    /// A batch without an assigned depth.
    pub fn new(verts: Vec<T>, index: Vec<u32>) -> (c: Self)
        ensures
            c.verts_view() == verts@,
            c.index_view() == index@,
            c.z_view() == VxVertexZValue::Disable,
    {
        Self { verts, index, z_value: VxVertexZValue::Disable }
    }

    /// Takes the vertices out, leaving none.
    pub fn verts(&mut self) -> (v: Vec<T>)
        ensures
            v@ == old(self).verts_view(),
            final(self).verts_view() == Seq::<T>::empty(),
            final(self).index_view() == old(self).index_view(),
            final(self).z_view() == old(self).z_view(),
    {
        let mut v = Vec::new();
        std::mem::swap(&mut v, &mut self.verts);
        v
    }

    /// Takes the indices out, leaving none.
    pub fn index(&mut self) -> (v: Vec<u32>)
        ensures
            v@ == old(self).index_view(),
            final(self).index_view() == Seq::<u32>::empty(),
            final(self).verts_view() == old(self).verts_view(),
            final(self).z_view() == old(self).z_view(),
    {
        let mut v = Vec::new();
        std::mem::swap(&mut v, &mut self.index);
        v
    }

    /// The depth, 0 when none is assigned.
    pub fn z_value(&self) -> (r: i32)
        ensures
            r == z_of(self.z_view()),
    {
        self.z_value.z_value()
    }

    /// Whether a depth is assigned.
    pub fn is_z_enable(&self) -> (r: bool)
        ensures
            r == (self.z_view() != VxVertexZValue::Disable),
    {
        self.z_value != VxVertexZValue::Disable
    }

    /// Assigns a depth.
    pub fn set_z_value(&mut self, z: i32)
        ensures
            final(self).z_view() == (VxVertexZValue::Enable { z }),
            final(self).verts_view() == old(self).verts_view(),
            final(self).index_view() == old(self).index_view(),
    {
        self.z_value = VxVertexZValue::Enable { z };
    }
}

/// The render module that draws a line.
#[derive(Clone, Copy, Debug, Hash, PartialEq, Eq, Structural)]
pub enum VxModuleId {
    VertexModule,
    SdfModule,
    TextureModule,
    TextModule,
}

/// Number of a module, as the renderer orders them.
pub open spec fn module_number(m: VxModuleId) -> u8 {
    match m {
        VxModuleId::VertexModule => 0,
        VxModuleId::SdfModule => 1,
        VxModuleId::TextureModule => 2,
        VxModuleId::TextModule => 3,
    }
}

/// A draw line as contracts see it.
pub struct VxDrawLineModel {
    pub module: VxModuleId,
    pub start: u32,
    pub count: nat,
    pub z: i32,
    pub mode: VxRenderMode,
}

/// One indexed draw: a module, a range of the index buffer, a depth and the
/// buffer set (retained or immediate) it reads.
#[derive(Clone, Copy, Debug)]
pub struct VxDrawLine {
    module: VxModuleId,
    index_start: u32,
    index_count: u32,
    z_value: i32,
    render_mode: VxRenderMode,
}

impl View for VxDrawLine {
    type V = VxDrawLineModel;

    closed spec fn view(&self) -> VxDrawLineModel {
        VxDrawLineModel {
            module: self.module,
            start: self.index_start,
            count: self.index_count as nat,
            z: self.z_value,
            mode: self.render_mode,
        }
    }
}

impl VxDrawLine {
    /// A draw line.
    pub fn new(module: VxModuleId, index_start: u32, count: u32, z_value: i32, render_mode: VxRenderMode) -> (l: Self)
        ensures
            l@ == (VxDrawLineModel {
                module,
                start: index_start,
                count: count as nat,
                z: z_value,
                mode: render_mode,
            }),
    {
        Self { module, index_start, index_count: count, z_value, render_mode }
    }

    /// The module.
    pub fn module(&self) -> (r: VxModuleId)
        ensures
            r == self@.module,
    {
        self.module
    }

    /// The number of the module.
    pub fn module_id(&self) -> (r: u8)
        ensures
            r == module_number(self@.module),
    {
        match self.module {
            VxModuleId::VertexModule => 0,
            VxModuleId::SdfModule => 1,
            VxModuleId::TextureModule => 2,
            VxModuleId::TextModule => 3,
        }
    }

    /// First index.
    pub fn start(&self) -> (r: u32)
        ensures
            r == self@.start,
    {
        self.index_start
    }

    /// Number of indices.
    pub fn count(&self) -> (r: u32)
        ensures
            r as nat == self@.count,
    {
        self.index_count
    }

    /// Depth.
    pub fn z_value(&self) -> (r: i32)
        ensures
            r == self@.z,
    {
        self.z_value
    }

    /// Sets the first index.
    pub fn set_index_start(&mut self, val: u32)
        ensures
            final(self)@ == (VxDrawLineModel { start: val, ..old(self)@ }),
    {
        self.index_start = val;
    }

    /// Sets the number of indices.
    pub fn set_index_count(&mut self, val: u32)
        ensures
            final(self)@ == (VxDrawLineModel { count: val as nat, ..old(self)@ }),
    {
        self.index_count = val;
    }

    /// Buffer set.
    pub fn render_mode(&self) -> (r: VxRenderMode)
        ensures
            r == self@.mode,
    {
        self.render_mode
    }
}

/// The draw lines of one buffer set, with a flag telling whether they have
/// been sorted since the last push.
pub struct VxDrawLineContainer {
    draw_lines: Vec<VxDrawLine>,
    sorted: bool,
}

impl VxDrawLineContainer {
    /// The draw lines.
    pub closed spec fn lines(&self) -> Seq<VxDrawLine> {
        self.draw_lines@
    }

    /// The sorted flag.
    pub closed spec fn sorted_flag(&self) -> bool {
        self.sorted
    }

    /// An empty container.
    pub fn new() -> (c: Self)
        ensures
            c.lines() == Seq::<VxDrawLine>::empty(),
            !c.sorted_flag(),
    {
        Self { draw_lines: Vec::new(), sorted: false }
    }

    /// Whether the lines are flagged as sorted.
    pub fn is_sorted(&self) -> (r: bool)
        ensures
            r == self.sorted_flag(),
    {
        self.sorted
    }

    /// The draw lines.
    pub fn draw_lines(&self) -> (r: &Vec<VxDrawLine>)
        ensures
            r@ == self.lines(),
    {
        &self.draw_lines
    }

    /// Mutable access to the draw lines.
    pub fn draw_lines_mut(&mut self) -> (r: &mut Vec<VxDrawLine>)
        ensures
            r@ == old(self).lines(),
            final(self).lines() == final(r)@,
            final(self).sorted_flag() == old(self).sorted_flag(),
    {
        &mut self.draw_lines
    }

    /// Takes the draw lines out, leaving none.
    pub fn draw_lines_take(&mut self) -> (r: Vec<VxDrawLine>)
        ensures
            r@ == old(self).lines(),
            final(self).lines() == Seq::<VxDrawLine>::empty(),
            final(self).sorted_flag() == old(self).sorted_flag(),
    {
        let mut v = Vec::new();
        std::mem::swap(&mut v, &mut self.draw_lines);
        v
    }

    /// Sets the sorted flag.
    pub fn set_sorted(&mut self, sorted: bool)
        ensures
            final(self).sorted_flag() == sorted,
            final(self).lines() == old(self).lines(),
    {
        self.sorted = sorted;
    }

    /// Appends a draw line; the lines are no longer flagged as sorted.
    pub fn push(&mut self, draw_line: VxDrawLine)
        ensures
            final(self).lines() == old(self).lines().push(draw_line),
            !final(self).sorted_flag(),
    {
        self.draw_lines.push(draw_line);
        self.sorted = false;
    }
}

/// What a window must redraw after the dirty check.
#[derive(Clone, Copy, PartialEq, Eq, Debug, Hash, Structural)]
pub enum VxDirtyCheckResult {
    /// Nothing to redraw.
    Clean,
    OnlyImmediate,
    All,
}

} // verus!
