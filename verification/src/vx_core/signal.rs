//! The state behind a signal: the connected handlers, kept in a generational
//! vector so that a disconnected handler's handle never reaches a handler
//! connected later, and whether emitting is enabled.
use vstd::prelude::*;

use crate::types::gen_vector::{VxGenIndex, VxGenVector, gen_inserted, gen_live, gen_removed, gen_value};
use crate::types::slot_model::{
    VxSlotModel, free_list_valid, live_count, live_items, law_insert_then_get, law_remove_then_get,
    law_insert_items, law_remove_items,
};

verus! {

/// Connected handlers and the enabled flag.
pub struct VxSignalState<T> {
    pub handler: VxGenVector<T>,
    pub enabled: bool,
}

impl<T> VxSignalState<T> {
    /// No handler, enabled.
    pub fn new() -> (r: Self)
        ensures
            r.handler.wf(),
            r.handler@ == Seq::<VxSlotModel<T>>::empty(),
            r.handler.free_list() == Seq::<usize>::empty(),
            r.enabled,
    {
        Self { handler: VxGenVector::new(), enabled: true }
    }
}

/// A signal: handlers that are called, in the order of their slots, when the
/// signal is emitted while enabled.
pub struct VxSignal<H> {
    state: VxSignalState<H>,
}

impl<H> VxSignal<H> {
    /// The handler slots.
    pub closed spec fn handlers(&self) -> Seq<VxSlotModel<H>> {
        self.state.handler@
    }

    /// The free handler slots, next reused first.
    pub closed spec fn free_slots(&self) -> Seq<usize> {
        self.state.handler.free_list()
    }

    /// Whether emitting calls the handlers.
    pub closed spec fn enabled(&self) -> bool {
        self.state.enabled
    }

    /// Internal consistency of the handler storage.
    pub closed spec fn wf(&self) -> bool {
        self.state.handler.wf()
    }

    /// A signal with no handler, enabled.
    pub fn new() -> (r: Self)
        ensures
            r.wf(),
            r.handlers() == Seq::<VxSlotModel<H>>::empty(),
            r.free_slots() == Seq::<usize>::empty(),
            r.enabled(),
    {
        Self { state: VxSignalState::new() }
    }

    /// The free handler slots are exactly the empty ones, each listed once,
    /// and the slot counts fit in a `usize`.
    pub proof fn lemma_free_slots(&self)
        requires
            self.wf(),
        ensures
            free_list_valid(self.handlers(), self.free_slots()),
            self.handlers().len() <= usize::MAX,
            live_count(self.handlers()) <= self.handlers().len(),
    {
        self.state.handler.lemma_free_list();
    }

    /// Connects a handler and returns its handle.
    pub fn internal_connect(&mut self, f: H) -> (id: VxGenIndex)
        requires
            old(self).wf(),
        ensures
            final(self).wf(),
            final(self).enabled() == old(self).enabled(),
            gen_inserted(old(self).handlers(), old(self).free_slots(), f, id, final(self).handlers(), final(self).free_slots()),
    {
        self.state.handler.insert(f)
    }

    /// Disconnects the handler that `id` names; `false` when it names none.
    pub fn internal_disconnect(&mut self, id: VxGenIndex) -> (r: bool)
        requires
            old(self).wf(),
            gen_live(old(self).handlers(), id) ==> id.gen() < u64::MAX,
        ensures
            final(self).wf(),
            final(self).enabled() == old(self).enabled(),
            r == gen_live(old(self).handlers(), id),
            r ==> gen_removed(old(self).handlers(), old(self).free_slots(), id, final(self).handlers(), final(self).free_slots()),
            !r ==> final(self).handlers() == old(self).handlers() && final(self).free_slots() == old(self).free_slots(),
    {
        self.state.handler.remove(id).is_some()
    }

    /// Whether `id` names a connected handler.
    pub fn internal_is_connected(&self, id: VxGenIndex) -> (r: bool)
        requires
            self.wf(),
        ensures
            r == gen_live(self.handlers(), id),
    {
        self.state.handler.contains(id)
    }

    /// Disconnects every handler and returns how many there were.
    pub fn internal_clear(&mut self) -> (n: usize)
        requires
            old(self).wf(),
        ensures
            final(self).wf(),
            n == live_count(old(self).handlers()),
            final(self).handlers() == Seq::<VxSlotModel<H>>::empty(),
            final(self).free_slots() == Seq::<usize>::empty(),
            final(self).enabled() == old(self).enabled(),
    {
        let len = self.state.handler.len();
        self.state.handler.clear();
        len
    }

    /// Number of connected handlers.
    pub fn internal_slot_count(&self) -> (n: usize)
        requires
            self.wf(),
        ensures
            n == live_count(self.handlers()),
    {
        self.state.handler.len()
    }

    /// Enables or disables emitting.
    pub fn internal_set_enabled(&mut self, enabled: bool)
        ensures
            final(self).enabled() == enabled,
            final(self).handlers() == old(self).handlers(),
            final(self).free_slots() == old(self).free_slots(),
            final(self).wf() == old(self).wf(),
    {
        self.state.enabled = enabled;
    }

    /// Whether emitting is enabled.
    pub fn internal_is_enabled(&self) -> (r: bool)
        ensures
            r == self.enabled(),
    {
        self.state.enabled
    }

    /// The handlers that emitting calls, in order, taken before any of them
    /// runs; `None` when the signal is disabled.
    pub fn emit_snapshot(&self) -> (r: Option<Vec<&H>>)
        ensures
            !self.enabled() ==> r is None,
            self.enabled() ==> (r matches Some(v) && v@.map_values(|h: &H| *h) == live_items(self.handlers())),
    {
        if !self.state.enabled {
            return None;
        }
        let mut it = self.state.handler.iter();
        let mut out: Vec<&H> = Vec::new();
        let ghost all = live_items(self.handlers());
        assert(out@.map_values(|h: &H| *h) + it.remaining() =~= all);
        loop
            invariant
                out@.map_values(|h: &H| *h) + it.remaining() == all,
                self.state.enabled,
                all == live_items(self.handlers()),
            decreases it.remaining().len(),
        {
            let ghost rem = it.remaining();
            match it.next() {
                Some(h) => {
                    out.push(h);
                    assert(out@.map_values(|h: &H| *h) + it.remaining() =~= all);
                },
                None => {
                    assert(out@.map_values(|h: &H| *h) =~= all);
                    return Some(out);
                },
            }
        }
    }
}

/// Connecting `f` to a signal whose handler slots are `m`: the new handle
/// named nothing before and names `f` now, one more handler is connected,
/// every other handle names what it named before, and emitting calls `f` in
/// the place of its slot among the other handlers.
pub proof fn law_connect<H>(
    m: Seq<VxSlotModel<H>>,
    free: Seq<usize>,
    f: H,
    id: VxGenIndex,
    m2: Seq<VxSlotModel<H>>,
    free2: Seq<usize>,
)
    requires
        m.len() <= usize::MAX,
        free_list_valid(m, free),
        gen_inserted(m, free, f, id, m2, free2),
    ensures
        !gen_live(m, id),
        gen_live(m2, id),
        gen_value(m2, id) == f,
        live_count(m2) == live_count(m) + 1,
        free_list_valid(m2, free2),
        forall|other: VxGenIndex| other != id ==> (#[trigger] gen_live(m2, other) <==> gen_live(m, other)),
        forall|other: VxGenIndex| #[trigger] gen_live(m, other) ==> gen_value(m2, other) == gen_value(m, other),
        id.slot() < m.len() ==> live_items(m2) == live_items(m.take(id.slot())) + seq![f] + live_items(
            m.skip(id.slot() + 1),
        ),
        id.slot() == m.len() ==> live_items(m2) == live_items(m).push(f),
{
    law_insert_then_get(m, free, f, id.slot(), id.gen(), m2, free2);
    law_insert_items(m, free, f, id.slot(), id.gen(), m2, free2);
    if free.len() > 0 {
        assert(m[free[0] as int].1 is None);
    }
    assert forall|other: VxGenIndex| other != id implies (#[trigger] gen_live(m2, other) <==> gen_live(m, other)) by {
        VxGenIndex::lemma_eq(other, id);
    }
    assert forall|other: VxGenIndex| #[trigger] gen_live(m, other) implies gen_value(m2, other) == gen_value(m, other) by {
        if other.slot() == id.slot() {
            if free.len() > 0 {
                assert(m[free[0] as int].1 is None);
            }
        }
    }
}

/// Disconnecting the handler that a live handle names: the handle names
/// nothing afterwards (so disconnecting it again answers `false` and changes
/// nothing), one handler fewer is connected, every other handle names what
/// it named before, and emitting calls the other handlers in their order.
pub proof fn law_disconnect<H>(
    m: Seq<VxSlotModel<H>>,
    free: Seq<usize>,
    id: VxGenIndex,
    m2: Seq<VxSlotModel<H>>,
    free2: Seq<usize>,
)
    requires
        m.len() <= usize::MAX,
        free_list_valid(m, free),
        gen_live(m, id),
        id.gen() < u64::MAX,
        gen_removed(m, free, id, m2, free2),
    ensures
        !gen_live(m2, id),
        live_count(m2) + 1 == live_count(m),
        free_list_valid(m2, free2),
        forall|other: VxGenIndex| other.slot() != id.slot() ==> (#[trigger] gen_live(m2, other) <==> gen_live(m, other)),
        forall|other: VxGenIndex| other.slot() != id.slot() && #[trigger] gen_live(m, other) ==> gen_value(m2, other)
            == gen_value(m, other),
        live_items(m) == live_items(m.take(id.slot())) + seq![gen_value(m, id)] + live_items(m.skip(id.slot() + 1)),
        live_items(m2) == live_items(m.take(id.slot())) + live_items(m.skip(id.slot() + 1)),
{
    law_remove_then_get(m, free, id.slot(), id.gen(), m2, free2);
    law_remove_items(m, free, id.slot(), id.gen(), m2, free2);
    assert(!gen_live(m2, id));
}

} // verus!
