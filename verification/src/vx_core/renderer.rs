//! The decisions of the renderer: in which order geometry is drawn, how
//! consecutive draw lines are merged into one draw call, and how vertex
//! batches are packed into one vertex and one index buffer.
use vstd::prelude::*;

use crate::types::render_commands::{
    VxDrawLine, VxDrawLineContainer, VxDrawLineModel, VxModuleId, VxRenderMode, VxVertexContainer,
    module_number, z_of,
};

verus! {

// ---------------------------------------------------------------------------
// Stable sorting by an integer key.
// ---------------------------------------------------------------------------

/// A value with an integer sort key.
pub trait VxSortKey {
    spec fn sort_key(&self) -> int;

    fn key(&self) -> (k: i64)
        ensures
            k as int == self.sort_key(),
    ;
}

/// The predicate "has key `k`".
pub open spec fn key_is<T: VxSortKey>(k: int) -> spec_fn(T) -> bool {
    |x: T| x.sort_key() == k
}

/// Keys never decrease along `s`.
pub open spec fn key_sorted<T: VxSortKey>(s: Seq<T>) -> bool {
    forall|i: int, j: int| 0 <= i <= j < s.len() ==> s[i].sort_key() <= s[j].sort_key()
}

/// For every key, `a` and `b` hold the same elements with that key in the
/// same order.
pub open spec fn same_per_key<T: VxSortKey>(a: Seq<T>, b: Seq<T>) -> bool {
    forall|k: int| #[trigger] a.filter(key_is::<T>(k)) == b.filter(key_is::<T>(k))
}

/// `r` is the stable sort of `s` by key: sorted, and equal to `s` on every
/// key class.
pub open spec fn stably_sorted<T: VxSortKey>(s: Seq<T>, r: Seq<T>) -> bool {
    key_sorted(r) && same_per_key(r, s)
}

/// Nothing is kept under a key that no element has.
proof fn lemma_filter_none<T: VxSortKey>(s: Seq<T>, k: int)
    requires
        forall|i: int| 0 <= i < s.len() ==> (#[trigger] s[i]).sort_key() != k,
    ensures
        s.filter(key_is::<T>(k)) == Seq::<T>::empty(),
{
    s.lemma_all_neg_filter_empty(key_is::<T>(k));
}

/// Sorts by key; elements with equal keys keep their order.
pub fn stable_sort_by_key<T: VxSortKey>(v: Vec<T>) -> (r: Vec<T>)
    ensures
        stably_sorted(v@, r@),
        r@.len() == v@.len(),
{
    broadcast use vstd::seq_lib::group_seq_properties;

    let ghost orig = v@;
    let mut v = v;
    let mut out: Vec<T> = Vec::new();
    proof {
        assert(orig.skip(orig.len() as int) =~= Seq::<T>::empty());
    }
    while v.len() > 0
        invariant
            v@ == orig.take(v@.len() as int),
            v@.len() <= orig.len(),
            key_sorted(out@),
            same_per_key(out@, orig.skip(v@.len() as int)),
            out@.len() + v@.len() == orig.len(),
        decreases v@.len(),
    {
        let ghost n = v@.len();
        let x = v.pop().unwrap();
        let kx = x.key();
        let mut j: usize = 0;
        while j < out.len() && out[j].key() < kx
            invariant
                j <= out@.len(),
                forall|i: int| 0 <= i < j ==> (#[trigger] out@[i]).sort_key() < kx,
            decreases out@.len() - j,
        {
            j = j + 1;
        }
        let ghost old_out = out@;
        proof {
            assert forall|i: int| j <= i < old_out.len() implies (#[trigger] old_out[i]).sort_key() >= kx by {
                assert(old_out[j as int].sort_key() >= kx);
            }
            let t = old_out.take(j as int);
            let d = old_out.skip(j as int);
            assert(old_out =~= t + d);
            assert(old_out.insert(j as int, x) =~= t + (seq![x] + d));
            assert(orig.skip(n - 1) =~= seq![x] + orig.skip(n as int));
            assert forall|k: int| #[trigger] old_out.insert(j as int, x).filter(key_is::<T>(k)) == (seq![x]
                + orig.skip(n as int)).filter(key_is::<T>(k)) by {
                Seq::filter_distributes_over_add(t, seq![x] + d, key_is::<T>(k));
                Seq::filter_distributes_over_add(t, d, key_is::<T>(k));
                d.lemma_filter_prepend(x, key_is::<T>(k));
                orig.skip(n as int).lemma_filter_prepend(x, key_is::<T>(k));
                assert(old_out.filter(key_is::<T>(k)) == orig.skip(n as int).filter(key_is::<T>(k)));
                if k == kx {
                    lemma_filter_none(t, k);
                    assert(t.filter(key_is::<T>(k)) + d.filter(key_is::<T>(k)) =~= d.filter(key_is::<T>(k)));
                    assert(Seq::<T>::empty() + (seq![x] + d.filter(key_is::<T>(k))) =~= seq![x] + d.filter(
                        key_is::<T>(k),
                    ));
                } else {
                    assert(Seq::<T>::empty() + d.filter(key_is::<T>(k)) =~= d.filter(key_is::<T>(k)));
                }
            }
        }
        out.insert(j, x);
        proof {
            assert(v@ =~= orig.take(v@.len() as int));
        }
    }
    proof {
        assert(orig.skip(0) =~= orig);
    }
    out
}

// ---------------------------------------------------------------------------
// Draw order and batching.
// ---------------------------------------------------------------------------

/// Draw lines are ordered by depth, then by module number.
impl VxSortKey for VxDrawLine {
    open spec fn sort_key(&self) -> int {
        self@.z * 4 + module_number(self@.module)
    }

    fn key(&self) -> (k: i64) {
        (self.z_value() as i64) * 4 + (self.module_id() as i64)
    }
}

/// Vertex batches are ordered by depth.
impl<T> VxSortKey for VxVertexContainer<T> {
    open spec fn sort_key(&self) -> int {
        z_of(self.z_view()) as int
    }

    fn key(&self) -> (k: i64) {
        self.z_value() as i64
    }
}

/// Draw lines are ordered by depth first and, at equal depth, by module
/// number: a shallower line comes before a deeper one whatever their
/// modules.
pub proof fn law_draw_line_order(a: VxDrawLine, b: VxDrawLine)
    ensures
        a@.z < b@.z ==> a.sort_key() < b.sort_key(),
        a@.z == b@.z ==> (a.sort_key() < b.sort_key() <==> module_number(a@.module) < module_number(b@.module)),
        a@.z == b@.z ==> (a.sort_key() == b.sort_key() <==> module_number(a@.module) == module_number(b@.module)),
{
    assert(module_number(a@.module) <= 3 && module_number(b@.module) <= 3);
}

/// Vertex batches are ordered by depth: a shallower batch comes before a
/// deeper one, and batches of one depth share a key.
pub proof fn law_vertex_batch_order<T>(a: VxVertexContainer<T>, b: VxVertexContainer<T>)
    ensures
        z_of(a.z_view()) < z_of(b.z_view()) ==> a.sort_key() < b.sort_key(),
        z_of(a.z_view()) == z_of(b.z_view()) ==> a.sort_key() == b.sort_key(),
{
}

/// Sorted draw lines never get shallower, and at one depth their module
/// numbers never decrease.
pub proof fn law_sorted_lines_by_depth(s: Seq<VxDrawLine>, r: Seq<VxDrawLine>)
    requires
        stably_sorted(s, r),
    ensures
        forall|i: int, j: int| 0 <= i <= j < r.len() ==> (#[trigger] r[i])@.z <= (#[trigger] r[j])@.z,
        forall|i: int, j: int|
            0 <= i <= j < r.len() && (#[trigger] r[i])@.z == (#[trigger] r[j])@.z ==> module_number(r[i]@.module)
                <= module_number(r[j]@.module),
{
    assert forall|i: int, j: int| 0 <= i <= j < r.len() implies (#[trigger] r[i])@.z <= (#[trigger] r[j])@.z && (
    r[i]@.z == r[j]@.z ==> module_number(r[i]@.module) <= module_number(r[j]@.module)) by {
        assert(r[i].sort_key() <= r[j].sort_key());
        law_draw_line_order(r[i], r[j]);
        law_draw_line_order(r[j], r[i]);
    }
}

/// Sorted vertex batches never get shallower.
pub proof fn law_sorted_batches_by_depth<T>(s: Seq<VxVertexContainer<T>>, r: Seq<VxVertexContainer<T>>)
    requires
        stably_sorted(s, r),
    ensures
        forall|i: int, j: int| 0 <= i <= j < r.len() ==> z_of((#[trigger] r[i]).z_view()) <= z_of((#[trigger] r[j]).z_view()),
{
    assert forall|i: int, j: int| 0 <= i <= j < r.len() implies z_of((#[trigger] r[i]).z_view()) <= z_of(
        (#[trigger] r[j]).z_view(),
    ) by {
        assert(r[i].sort_key() <= r[j].sort_key());
    }
}

/// Two draw lines go into one draw call when they use the same module and
/// the same buffer set.
pub open spec fn same_batch(a: VxDrawLineModel, b: VxDrawLineModel) -> bool {
    a.module == b.module && a.mode == b.mode
}

/// Merging a run of consecutive draw lines that share module and buffer set
/// into one line: the first line, with the counts added up.
pub open spec fn batched(s: Seq<VxDrawLineModel>) -> Seq<VxDrawLineModel>
    decreases s.len(),
{
    if s.len() == 0 {
        Seq::empty()
    } else {
        let prev = batched(s.drop_last());
        let x = s.last();
        if prev.len() > 0 && same_batch(prev.last(), x) {
            prev.drop_last().push(VxDrawLineModel { count: prev.last().count + x.count, ..prev.last() })
        } else {
            prev.push(x)
        }
    }
}

/// No merged draw line counts more indices than a `u32` holds.
pub open spec fn batches_fit(s: Seq<VxDrawLineModel>) -> bool {
    forall|i: int| 0 <= i < batched(s).len() ==> (#[trigger] batched(s)[i]).count <= u32::MAX
}

/// The models of a sequence of draw lines.
pub open spec fn line_models(s: Seq<VxDrawLine>) -> Seq<VxDrawLineModel> {
    s.map_values(|l: VxDrawLine| l@)
}

/// Batching lines whose depth never decreases gives draw calls whose depth
/// never decreases; the last call is no deeper than the last line.
pub proof fn law_batched_keeps_depth_order(s: Seq<VxDrawLineModel>)
    requires
        forall|i: int, j: int| 0 <= i <= j < s.len() ==> (#[trigger] s[i]).z <= (#[trigger] s[j]).z,
    ensures
        forall|i: int, j: int| 0 <= i <= j < batched(s).len() ==> (#[trigger] batched(s)[i]).z <= (#[trigger] batched(
            s,
        )[j]).z,
        s.len() > 0 ==> batched(s).len() > 0 && batched(s).last().z <= s.last().z,
    decreases s.len(),
{
    if s.len() > 0 {
        let p = s.drop_last();
        assert forall|i: int, j: int| 0 <= i <= j < p.len() implies (#[trigger] p[i]).z <= (#[trigger] p[j]).z by {
            assert(p[i] == s[i] && p[j] == s[j]);
        }
        law_batched_keeps_depth_order(p);
        let prev = batched(p);
        let x = s.last();
        if p.len() > 0 {
            assert(p.last() == s[s.len() - 2]);
            assert(s[s.len() - 2].z <= s[s.len() - 1].z);
        }
        let b = batched(s);
        if prev.len() > 0 && same_batch(prev.last(), x) {
            assert forall|i: int, j: int| 0 <= i <= j < b.len() implies (#[trigger] b[i]).z <= (#[trigger] b[j]).z by {
                assert(b[i].z == prev[i].z);
                assert(b[j].z == prev[j].z);
            }
        } else {
            assert forall|i: int, j: int| 0 <= i <= j < b.len() implies (#[trigger] b[i]).z <= (#[trigger] b[j]).z by {
                if j == prev.len() {
                    if i < j {
                        assert(prev[i].z <= prev.last().z);
                    }
                } else {
                    assert(b[i] == prev[i] && b[j] == prev[j]);
                }
            }
        }
    }
}

/// Batching one more line keeps the batches before the last and can only
/// grow the last one.
proof fn lemma_batched_step(b: Seq<VxDrawLineModel>)
    requires
        b.len() > 0,
    ensures
        batched(b.drop_last()).len() <= batched(b).len(),
        forall|k: int| 0 <= k < batched(b.drop_last()).len() - 1 ==> #[trigger] batched(b)[k] == batched(b.drop_last())[k],
        batched(b.drop_last()).len() > 0 ==> {
            let p = batched(b.drop_last());
            let q = batched(b);
            &&& q[p.len() - 1].count >= p.last().count
            &&& q[p.len() - 1].module == p.last().module
            &&& q[p.len() - 1].mode == p.last().mode
        },
{
}

/// Batching a prefix gives the first batches of the whole, the last of
/// them possibly smaller.
proof fn lemma_batched_prefix(s: Seq<VxDrawLineModel>, i: int)
    requires
        0 <= i <= s.len(),
    ensures
        batched(s.take(i)).len() <= batched(s).len(),
        forall|k: int| 0 <= k < batched(s.take(i)).len() - 1 ==> #[trigger] batched(s)[k] == batched(s.take(i))[k],
        batched(s.take(i)).len() > 0 ==> {
            let p = batched(s.take(i));
            batched(s)[p.len() - 1].count >= p.last().count
        },
    decreases s.len() - i,
{
    if i < s.len() {
        lemma_batched_prefix(s, i + 1);
        let a = s.take(i);
        let b = s.take(i + 1);
        assert(b.drop_last() =~= a);
        lemma_batched_step(b);
        let p = batched(a);
        let q = batched(b);
        let r = batched(s);
        assert forall|k: int| 0 <= k < p.len() - 1 implies #[trigger] r[k] == p[k] by {
            assert(q[k] == p[k]);
            assert(r[k] == q[k]);
        }
        if p.len() > 0 {
            let l = p.len() - 1;
            if l < q.len() - 1 {
                assert(r[l] == q[l]);
            }
        }
    } else {
        assert(s.take(i) =~= s);
    }
}

/// If no merged line of `s` overflows, no merged line of a prefix does.
proof fn lemma_batches_fit_prefix(s: Seq<VxDrawLineModel>, i: int)
    requires
        0 <= i <= s.len(),
        batches_fit(s),
    ensures
        batches_fit(s.take(i)),
{
    lemma_batched_prefix(s, i);
    let p = batched(s.take(i));
    assert forall|k: int| 0 <= k < p.len() implies (#[trigger] p[k]).count <= u32::MAX by {
        if k < p.len() - 1 {
            assert(batched(s)[k] == p[k]);
        } else {
            assert(batched(s)[k].count >= p[k].count);
        }
    }
}

/// Merges consecutive draw lines of the same module and buffer set.
pub fn batch_draw_lines(lines: Vec<VxDrawLine>) -> (r: Vec<VxDrawLine>)
    requires
        batches_fit(line_models(lines@)),
    ensures
        line_models(r@) == batched(line_models(lines@)),
{
    let ghost s = line_models(lines@);
    let mut out: Vec<VxDrawLine> = Vec::new();
    let mut i: usize = 0;
    proof {
        assert(s.take(0) =~= Seq::<VxDrawLineModel>::empty());
        assert(line_models(out@) =~= Seq::<VxDrawLineModel>::empty());
    }
    while i < lines.len()
        invariant
            i <= lines@.len(),
            s == line_models(lines@),
            batches_fit(s),
            line_models(out@) == batched(s.take(i as int)),
        decreases lines@.len() - i,
    {
        let line = lines[i];
        proof {
            assert(s.take(i + 1).drop_last() =~= s.take(i as int));
            assert(s.take(i + 1).last() == line@);
            lemma_batches_fit_prefix(s, i + 1);
        }
        let n = out.len();
        if n > 0 && out[n - 1].module() == line.module() && out[n - 1].render_mode() == line.render_mode() {
            let mut last = out[n - 1];
            proof {
                let p = batched(s.take(i as int));
                assert(line_models(out@)[n - 1] == out@[n - 1]@);
                assert(p.last() == last@);
                let q = batched(s.take(i + 1));
                assert(q == p.drop_last().push(VxDrawLineModel { count: p.last().count + line@.count, ..p.last() }));
                assert(q[q.len() - 1].count <= u32::MAX);
            }
            let total = last.count() + line.count();
            last.set_index_count(total);
            out.set(n - 1, last);
            proof {
                assert(line_models(out@) =~= batched(s.take(i + 1)));
            }
        } else {
            out.push(line);
            proof {
                assert(line_models(out@) =~= batched(s.take(i + 1)));
            }
        }
        i = i + 1;
    }
    proof {
        assert(s.take(lines@.len() as int) =~= s);
    }
    out
}

/// The draw calls planned from draw lines stably sorted by key never get
/// shallower: a call at a smaller depth is never painted after a deeper one.
pub proof fn law_planned_lines_by_depth(lines: Seq<VxDrawLine>, s: Seq<VxDrawLine>, r: Seq<VxDrawLineModel>)
    requires
        stably_sorted(lines, s),
        r == batched(line_models(s)),
    ensures
        forall|i: int, j: int| 0 <= i <= j < r.len() ==> (#[trigger] r[i]).z <= (#[trigger] r[j]).z,
{
    law_sorted_lines_by_depth(lines, s);
    let ms = line_models(s);
    assert forall|i: int, j: int| 0 <= i <= j < ms.len() implies (#[trigger] ms[i]).z <= (#[trigger] ms[j]).z by {
        assert(ms[i] == s[i]@ && ms[j] == s[j]@);
        assert(s[i]@.z <= s[j]@.z);
    }
    law_batched_keeps_depth_order(ms);
}

/// The draw calls of a frame: the retained lines, then the immediate lines
/// (which are taken out of their container), sorted stably by depth and
/// module number, with consecutive lines of the same module and buffer set
/// merged.
pub fn plan_draw_batches(retained: &VxDrawLineContainer, immediate: &mut VxDrawLineContainer) -> (r: Vec<
    VxDrawLine,
>)
    requires
        forall|s: Seq<VxDrawLine>|
            stably_sorted(retained.lines() + old(immediate).lines(), s) ==> #[trigger] batches_fit(
                line_models(s),
            ),
    ensures
        final(immediate).lines() == Seq::<VxDrawLine>::empty(),
        final(immediate).sorted_flag() == old(immediate).sorted_flag(),
        exists|s: Seq<VxDrawLine>|
            stably_sorted(retained.lines() + old(immediate).lines(), s) && line_models(r@) == batched(
                line_models(s),
            ),
        forall|i: int, j: int| 0 <= i <= j < r@.len() ==> (#[trigger] r@[i])@.z <= (#[trigger] r@[j])@.z,
{
    let lines = retained.draw_lines();
    let mut all: Vec<VxDrawLine> = Vec::new();
    let mut i: usize = 0;
    while i < lines.len()
        invariant
            i <= lines@.len(),
            all@ == lines@.take(i as int),
        decreases lines@.len() - i,
    {
        all.push(lines[i]);
        i = i + 1;
        proof {
            assert(all@ =~= lines@.take(i as int));
        }
    }
    let mut taken = immediate.draw_lines_take();
    all.append(&mut taken);
    proof {
        assert(lines@.take(lines@.len() as int) =~= lines@);
        assert(all@ =~= retained.lines() + old(immediate).lines());
    }
    let ghost input = all@;
    let sorted = stable_sort_by_key(all);
    let ghost sv = sorted@;
    let r = batch_draw_lines(sorted);
    proof {
        law_planned_lines_by_depth(input, sv, line_models(r@));
        assert forall|i: int, j: int| 0 <= i <= j < r@.len() implies (#[trigger] r@[i])@.z <= (#[trigger] r@[j])@.z by {
            assert(line_models(r@)[i] == r@[i]@ && line_models(r@)[j] == r@[j]@);
        }
    }
    r
}

// ---------------------------------------------------------------------------
// Laws of batching.
// ---------------------------------------------------------------------------

/// Number of indices that the draw lines cover together.
pub open spec fn total_count(s: Seq<VxDrawLineModel>) -> nat
    decreases s.len(),
{
    if s.len() == 0 {
        0
    } else {
        total_count(s.drop_last()) + s.last().count
    }
}

/// No two consecutive lines could have been merged.
pub open spec fn fully_merged(s: Seq<VxDrawLineModel>) -> bool {
    forall|i: int| 0 <= i < s.len() - 1 ==> !same_batch(#[trigger] s[i], s[i + 1])
}

/// Batching draws every index that the lines drew: the counts add up to the
/// same total.
pub proof fn law_batching_keeps_count(s: Seq<VxDrawLineModel>)
    ensures
        total_count(batched(s)) == total_count(s),
    decreases s.len(),
{
    if s.len() > 0 {
        law_batching_keeps_count(s.drop_last());
        let prev = batched(s.drop_last());
        let x = s.last();
        if prev.len() > 0 && same_batch(prev.last(), x) {
            let m = VxDrawLineModel { count: prev.last().count + x.count, ..prev.last() };
            assert(prev.drop_last().push(m).drop_last() =~= prev.drop_last());
        } else {
            assert(prev.push(x).drop_last() =~= prev);
        }
    }
}

/// Batching merges as far as it can: no two consecutive draw calls could be
/// merged further.
pub proof fn law_batching_is_maximal(s: Seq<VxDrawLineModel>)
    ensures
        fully_merged(batched(s)),
    decreases s.len(),
{
    if s.len() > 0 {
        law_batching_is_maximal(s.drop_last());
        let prev = batched(s.drop_last());
        let x = s.last();
        let b = batched(s);
        if prev.len() > 0 && same_batch(prev.last(), x) {
            assert forall|i: int| 0 <= i < b.len() - 1 implies !same_batch(#[trigger] b[i], b[i + 1]) by {
                assert(b[i] == prev[i]);
                if i + 1 < prev.len() - 1 {
                    assert(b[i + 1] == prev[i + 1]);
                } else {
                    assert(b[i + 1].module == prev[i + 1].module && b[i + 1].mode == prev[i + 1].mode);
                }
            }
        } else {
            assert forall|i: int| 0 <= i < b.len() - 1 implies !same_batch(#[trigger] b[i], b[i + 1]) by {
                assert(b[i] == prev[i]);
                if i + 1 < prev.len() {
                    assert(b[i + 1] == prev[i + 1]);
                }
            }
        }
    }
}

/// Batching lines that are already batched changes nothing.
pub proof fn law_batching_is_idempotent(s: Seq<VxDrawLineModel>)
    ensures
        batched(batched(s)) == batched(s),
{
    law_batching_is_maximal(s);
    lemma_batched_fully_merged(batched(s));
}

/// When no two neighbouring lines could merge, batching leaves them as they
/// are.
proof fn lemma_batched_fully_merged(b: Seq<VxDrawLineModel>)
    requires
        fully_merged(b),
    ensures
        batched(b) == b,
    decreases b.len(),
{
    if b.len() > 0 {
        let p = b.drop_last();
        assert forall|i: int| 0 <= i < p.len() - 1 implies !same_batch(#[trigger] p[i], p[i + 1]) by {
            assert(!same_batch(b[i], b[i + 1]));
        }
        lemma_batched_fully_merged(p);
        if p.len() > 0 {
            assert(!same_batch(b[p.len() - 1], b[p.len() as int]));
        }
        assert(p.push(b.last()) =~= b);
    }
}

// ---------------------------------------------------------------------------
// Laws of the stable sort.
// ---------------------------------------------------------------------------

/// In a sequence sorted by key, the first element is the first of its key,
/// and no element has a smaller key.
proof fn lemma_first_with_key<T: VxSortKey>(s: Seq<T>)
    requires
        s.len() > 0,
        key_sorted(s),
    ensures
        s.filter(key_is::<T>(s[0].sort_key())).len() > 0,
        s.filter(key_is::<T>(s[0].sort_key()))[0] == s[0],
        s.drop_first().filter(key_is::<T>(s[0].sort_key())) == s.filter(key_is::<T>(s[0].sort_key())).drop_first(),
        forall|k: int| k != s[0].sort_key() ==> #[trigger] s.drop_first().filter(key_is::<T>(k)) == s.filter(key_is::<T>(k)),
        forall|k: int| k < s[0].sort_key() ==> #[trigger] s.filter(key_is::<T>(k)).len() == 0,
{
    broadcast use vstd::seq_lib::group_seq_properties;

    let x = s[0];
    let rest = s.drop_first();
    assert(s =~= seq![x] + rest);
    rest.lemma_filter_prepend(x, key_is::<T>(x.sort_key()));
    assert forall|k: int| k != s[0].sort_key() implies #[trigger] s.drop_first().filter(key_is::<T>(k)) == s.filter(key_is::<T>(k)) by {
        rest.lemma_filter_prepend(x, key_is::<T>(k));
        assert(Seq::<T>::empty() + rest.filter(key_is::<T>(k)) =~= rest.filter(key_is::<T>(k)));
    }
    assert forall|k: int| k < s[0].sort_key() implies #[trigger] s.filter(key_is::<T>(k)).len() == 0 by {
        lemma_filter_none(s, k);
    }
    assert((seq![x] + rest.filter(key_is::<T>(x.sort_key()))).drop_first() =~= rest.filter(key_is::<T>(x.sort_key())));
}

/// A sequence has exactly one stable sort: two sequences that are sorted by
/// key and agree on every key class are equal.
pub proof fn law_stable_sort_unique<T: VxSortKey>(s: Seq<T>, a: Seq<T>, b: Seq<T>)
    requires
        stably_sorted(s, a),
        stably_sorted(s, b),
    ensures
        a == b,
{
    lemma_sorted_same_per_key_eq(a, b);
}

/// Two sequences sorted by key with the same elements per key, in the same
/// order, are equal.
proof fn lemma_sorted_same_per_key_eq<T: VxSortKey>(a: Seq<T>, b: Seq<T>)
    requires
        key_sorted(a),
        key_sorted(b),
        same_per_key(a, b),
    ensures
        a == b,
    decreases a.len(),
{
    broadcast use vstd::seq_lib::group_seq_properties;

    if a.len() == 0 {
        if b.len() > 0 {
            lemma_first_with_key(b);
            assert(a.filter(key_is::<T>(b[0].sort_key())) =~= Seq::<T>::empty()) by {
                reveal(Seq::filter);
            }
        }
        assert(a =~= b);
    } else if b.len() == 0 {
        lemma_first_with_key(a);
        assert(b.filter(key_is::<T>(a[0].sort_key())) =~= Seq::<T>::empty()) by {
            reveal(Seq::filter);
        }
    } else {
        lemma_first_with_key(a);
        lemma_first_with_key(b);
        let ka = a[0].sort_key();
        let kb = b[0].sort_key();
        assert(a.filter(key_is::<T>(ka)) == b.filter(key_is::<T>(ka)));
        assert(a.filter(key_is::<T>(kb)) == b.filter(key_is::<T>(kb)));
        assert(ka == kb);
        assert(a[0] == b[0]);
        let a2 = a.drop_first();
        let b2 = b.drop_first();
        assert forall|k: int| #[trigger] a2.filter(key_is::<T>(k)) == b2.filter(key_is::<T>(k)) by {
            assert(a.filter(key_is::<T>(k)) == b.filter(key_is::<T>(k)));
        }
        lemma_sorted_same_per_key_eq(a2, b2);
        assert(a =~= seq![a[0]] + a2);
        assert(b =~= seq![b[0]] + b2);
    }
}

// ---------------------------------------------------------------------------
// Packing vertex batches into one vertex and one index buffer.
// ---------------------------------------------------------------------------

/// Total number of vertices.
pub open spec fn verts_total<T>(cs: Seq<VxVertexContainer<T>>) -> nat
    decreases cs.len(),
{
    if cs.len() == 0 {
        0
    } else {
        verts_total(cs.drop_last()) + cs.last().verts_view().len()
    }
}

/// Total number of indices.
pub open spec fn index_total<T>(cs: Seq<VxVertexContainer<T>>) -> nat
    decreases cs.len(),
{
    if cs.len() == 0 {
        0
    } else {
        index_total(cs.drop_last()) + cs.last().index_view().len()
    }
}

/// The vertices of all batches, one after another.
pub open spec fn packed_verts<T>(cs: Seq<VxVertexContainer<T>>) -> Seq<T>
    decreases cs.len(),
{
    if cs.len() == 0 {
        Seq::empty()
    } else {
        packed_verts(cs.drop_last()) + cs.last().verts_view()
    }
}

/// Indices moved up by `offset`.
pub open spec fn shifted(idx: Seq<u32>, offset: nat) -> Seq<u32> {
    idx.map_values(|x: u32| (x + offset) as u32)
}

/// The indices of all batches, one after another, each batch's indices moved
/// up by the number of vertices before it.
pub open spec fn packed_index<T>(cs: Seq<VxVertexContainer<T>>) -> Seq<u32>
    decreases cs.len(),
{
    if cs.len() == 0 {
        Seq::empty()
    } else {
        packed_index(cs.drop_last()) + shifted(cs.last().index_view(), verts_total(cs.drop_last()))
    }
}

/// One draw line per batch: its range of the packed index buffer and its
/// depth.
pub open spec fn packed_lines<T>(cs: Seq<VxVertexContainer<T>>, module: VxModuleId, mode: VxRenderMode) -> Seq<
    VxDrawLineModel,
>
    decreases cs.len(),
{
    if cs.len() == 0 {
        Seq::empty()
    } else {
        packed_lines(cs.drop_last(), module, mode).push(
            VxDrawLineModel {
                module,
                start: index_total(cs.drop_last()) as u32,
                count: cs.last().index_view().len(),
                z: z_of(cs.last().z_view()),
                mode,
            },
        )
    }
}

/// The packed buffers are addressable with `u32`: the vertex and index
/// totals fit, and so does every moved index.
pub open spec fn packing_fits<T>(cs: Seq<VxVertexContainer<T>>) -> bool {
    &&& verts_total(cs) <= u32::MAX
    &&& index_total(cs) <= u32::MAX
    &&& forall|i: int, j: int|
        0 <= i < cs.len() && 0 <= j < cs[i].index_view().len() ==> cs[i].index_view()[j] + verts_total(
            cs.take(i),
        ) <= u32::MAX
}

/// A prefix of the containers holds no more vertices and indices than the
/// whole.
proof fn lemma_totals_prefix<T>(cs: Seq<VxVertexContainer<T>>, k: int)
    requires
        0 <= k <= cs.len(),
    ensures
        verts_total(cs.take(k)) <= verts_total(cs),
        index_total(cs.take(k)) <= index_total(cs),
    decreases cs.len() - k,
{
    if k < cs.len() {
        lemma_totals_prefix(cs, k + 1);
        assert(cs.take(k + 1).drop_last() =~= cs.take(k));
    } else {
        assert(cs.take(k) =~= cs);
    }
}

/// The draw line of each packed batch has that batch's depth.
proof fn lemma_packed_lines_z<T>(cs: Seq<VxVertexContainer<T>>, module: VxModuleId, mode: VxRenderMode)
    ensures
        packed_lines(cs, module, mode).len() == cs.len(),
        forall|i: int| 0 <= i < cs.len() ==> (#[trigger] packed_lines(cs, module, mode)[i]).z == z_of(cs[i].z_view()),
    decreases cs.len(),
{
    if cs.len() > 0 {
        let p = cs.drop_last();
        lemma_packed_lines_z(p, module, mode);
        assert forall|i: int| 0 <= i < cs.len() implies (#[trigger] packed_lines(cs, module, mode)[i]).z == z_of(
            cs[i].z_view(),
        ) by {
            if i < p.len() {
                assert(packed_lines(cs, module, mode)[i] == packed_lines(p, module, mode)[i]);
                assert(p[i] == cs[i]);
            }
        }
    }
}

/// The draw lines of batches packed after a stable sort by key never get
/// shallower: a shallower batch is drawn before a deeper one.
pub proof fn law_packed_lines_by_depth<T>(
    containers: Seq<VxVertexContainer<T>>,
    cs: Seq<VxVertexContainer<T>>,
    module: VxModuleId,
    mode: VxRenderMode,
)
    requires
        stably_sorted(containers, cs),
    ensures
        forall|i: int, j: int|
            0 <= i <= j < packed_lines(cs, module, mode).len() ==> (#[trigger] packed_lines(cs, module, mode)[i]).z
                <= (#[trigger] packed_lines(cs, module, mode)[j]).z,
{
    lemma_packed_lines_z(cs, module, mode);
    law_sorted_batches_by_depth(containers, cs);
    assert forall|i: int, j: int| 0 <= i <= j < packed_lines(cs, module, mode).len() implies (#[trigger] packed_lines(
        cs,
        module,
        mode,
    )[i]).z <= (#[trigger] packed_lines(cs, module, mode)[j]).z by {
        assert(z_of(cs[i].z_view()) <= z_of(cs[j].z_view()));
    }
}

/// Packs the batches of one module for one buffer set: sorts them stably by
/// depth, concatenates their vertices and their indices (each moved up by the
/// number of vertices before its batch), and appends one draw line per batch
/// to `draw_lines`. Nothing is appended when there is no batch.
pub fn pack_vertex_containers<T>(
    module: VxModuleId,
    render_mode: VxRenderMode,
    containers: Vec<VxVertexContainer<T>>,
    draw_lines: &mut VxDrawLineContainer,
) -> (r: (Vec<T>, Vec<u32>))
    requires
        forall|cs: Seq<VxVertexContainer<T>>|
            stably_sorted(containers@, cs) ==> #[trigger] packing_fits(cs),
    ensures
        containers@.len() == 0 ==> {
            &&& r.0@ == Seq::<T>::empty()
            &&& r.1@ == Seq::<u32>::empty()
            &&& final(draw_lines).lines() == old(draw_lines).lines()
            &&& final(draw_lines).sorted_flag() == old(draw_lines).sorted_flag()
        },
        containers@.len() > 0 ==> exists|cs: Seq<VxVertexContainer<T>>|
            {
                &&& stably_sorted(containers@, cs)
                &&& r.0@ == packed_verts(cs)
                &&& r.1@ == packed_index(cs)
                &&& line_models(final(draw_lines).lines()) == line_models(old(draw_lines).lines()) + packed_lines(
                    cs,
                    module,
                    render_mode,
                )
                &&& !final(draw_lines).sorted_flag()
            },
        forall|i: int, j: int|
            old(draw_lines).lines().len() <= i <= j < final(draw_lines).lines().len() ==> (
            #[trigger] final(draw_lines).lines()[i])@.z <= (#[trigger] final(draw_lines).lines()[j])@.z,
{
    if containers.len() == 0 {
        return (Vec::new(), Vec::new());
    }
    let ghost containers_in = containers@;
    let mut rest = stable_sort_by_key(containers);
    let ghost cs = rest@;
    let ghost old_lines = line_models(draw_lines.lines());
    proof {
        assert(packing_fits(cs));
        lemma_totals_prefix(cs, 0);
        assert(cs.take(0) =~= Seq::<VxVertexContainer<T>>::empty());
        assert(cs.skip(0) =~= cs);
    }
    let mut all_vertices: Vec<T> = Vec::new();
    let mut all_index: Vec<u32> = Vec::new();
    let mut offset: u32 = 0;
    let mut k: usize = 0;
    let n = rest.len();
    while rest.len() > 0
        invariant
            n == cs.len(),
            k <= n,
            rest@ == cs.skip(k as int),
            packing_fits(cs),
            all_vertices@ == packed_verts(cs.take(k as int)),
            all_index@ == packed_index(cs.take(k as int)),
            offset as nat == verts_total(cs.take(k as int)),
            all_index@.len() == index_total(cs.take(k as int)),
            line_models(draw_lines.lines()) == old_lines + packed_lines(cs.take(k as int), module, render_mode),
            k > 0 ==> !draw_lines.sorted_flag(),
            k == 0 ==> draw_lines.sorted_flag() == old(draw_lines).sorted_flag(),
        decreases rest@.len(),
    {
        let ghost pre = cs.take(k as int);
        let ghost nxt = cs.take(k + 1);
        proof {
            assert(rest@[0] == cs[k as int]);
            assert(nxt.drop_last() =~= pre);
            assert(nxt.last() == cs[k as int]);
            lemma_totals_prefix(cs, k + 1);
            assert(cs.skip(k as int).drop_first() =~= cs.skip(k + 1));
        }
        let mut c = rest.remove(0);
        let mut verts = c.verts();
        let len = verts.len() as u32;
        let before = all_index.len() as u32;
        all_vertices.append(&mut verts);
        let idx = c.index();
        let mut j: usize = 0;
        let ghost base = all_index@;
        while j < idx.len()
            invariant
                j <= idx@.len(),
                idx@ == cs[k as int].index_view(),
                base == packed_index(pre),
                all_index@ == base + shifted(idx@, offset as nat).take(j as int),
                offset as nat == verts_total(pre),
                packing_fits(cs),
                k < cs.len(),
                pre == cs.take(k as int),
            decreases idx@.len() - j,
        {
            assert(idx@[j as int] + verts_total(cs.take(k as int)) <= u32::MAX);
            all_index.push(idx[j] + offset);
            j = j + 1;
            proof {
                assert(all_index@ =~= base + shifted(idx@, offset as nat).take(j as int));
            }
        }
        proof {
            assert(shifted(idx@, offset as nat).take(j as int) =~= shifted(idx@, offset as nat));
            assert(verts_total(nxt) <= u32::MAX);
            assert(index_total(nxt) <= u32::MAX);
        }
        offset = offset + len;
        let total_index = all_index.len();
        proof {
            assert(total_index == index_total(nxt));
            assert(c.z_view() == cs[k as int].z_view());
        }
        let count = total_index as u32 - before;
        let line = VxDrawLine::new(module, before, count, c.z_value(), render_mode);
        let ghost lines_before = draw_lines.lines();
        draw_lines.push(line);
        proof {
            assert(line@ == packed_lines(nxt, module, render_mode).last());
            assert(line_models(lines_before.push(line)) =~= line_models(lines_before).push(line@));
        }
        k = k + 1;
        proof {
            assert(all_vertices@ =~= packed_verts(nxt));
            assert(all_index@ =~= packed_index(nxt));
            assert(line_models(draw_lines.lines()) =~= old_lines + packed_lines(nxt, module, render_mode));
        }
    }
    proof {
        assert(cs.take(n as int) =~= cs);
        law_packed_lines_by_depth(containers_in, cs, module, render_mode);
        let fl = draw_lines.lines();
        let ol = old(draw_lines).lines();
        assert(line_models(ol).len() == ol.len());
        assert forall|i: int, j: int| ol.len() <= i <= j < fl.len() implies (#[trigger] fl[i])@.z <= (#[trigger] fl[j])@.z by {
            assert(line_models(fl)[i] == fl[i]@ && line_models(fl)[j] == fl[j]@);
            assert(line_models(fl)[i] == packed_lines(cs, module, render_mode)[i - ol.len()]);
            assert(line_models(fl)[j] == packed_lines(cs, module, render_mode)[j - ol.len()]);
        }
    }
    (all_vertices, all_index)
}

/// The packed buffers hold every vertex and index of the containers.
proof fn lemma_packed_lens<T>(cs: Seq<VxVertexContainer<T>>)
    ensures
        packed_verts(cs).len() == verts_total(cs),
        packed_index(cs).len() == index_total(cs),
    decreases cs.len(),
{
    if cs.len() > 0 {
        lemma_packed_lens(cs.drop_last());
    }
}

/// Packing that fits still fits without the last container.
proof fn lemma_packing_fits_drop_last<T>(cs: Seq<VxVertexContainer<T>>)
    requires
        cs.len() > 0,
        packing_fits(cs),
    ensures
        packing_fits(cs.drop_last()),
{
    let p = cs.drop_last();
    lemma_totals_prefix(cs, cs.len() - 1);
    assert(cs.take(cs.len() - 1) =~= p);
    assert forall|i: int, j: int|
        0 <= i < p.len() && 0 <= j < p[i].index_view().len() implies p[i].index_view()[j] + verts_total(p.take(i))
        <= u32::MAX by {
        assert(p.take(i) =~= cs.take(i));
        assert(p[i] == cs[i]);
    }
}

/// In the packed buffers, every index of batch `i` still addresses the vertex
/// it addressed in its batch, and the draw line of batch `i` covers exactly
/// that batch's indices.
pub proof fn law_packing_keeps_addressing<T>(
    cs: Seq<VxVertexContainer<T>>,
    module: VxModuleId,
    mode: VxRenderMode,
    i: int,
    j: int,
)
    requires
        packing_fits(cs),
        0 <= i < cs.len(),
        0 <= j < cs[i].index_view().len(),
    ensures
        packed_lines(cs, module, mode)[i].start == index_total(cs.take(i)),
        packed_lines(cs, module, mode)[i].count == cs[i].index_view().len(),
        packed_lines(cs, module, mode)[i].z == z_of(cs[i].z_view()),
        packed_index(cs)[index_total(cs.take(i)) + j] == cs[i].index_view()[j] + verts_total(cs.take(i)),
        cs[i].index_view()[j] < cs[i].verts_view().len() ==> packed_verts(cs)[cs[i].index_view()[j] + verts_total(
            cs.take(i),
        )] == cs[i].verts_view()[cs[i].index_view()[j] as int],
    decreases cs.len(),
{
    let p = cs.drop_last();
    lemma_packed_lens(p);
    lemma_totals_prefix(cs, cs.len() - 1);
    assert(cs.take(cs.len() - 1) =~= p);
    assert(packed_lines(cs, module, mode).len() == cs.len()) by {
        lemma_packed_lines_len(cs, module, mode);
    }
    if i == cs.len() - 1 {
        assert(cs.take(i) =~= p);
        assert(cs[i] == cs.last());
        assert(cs.take(i + 1) =~= cs);
        assert(index_total(cs) <= u32::MAX);
        assert(cs[i].index_view()[j] + verts_total(cs.take(i)) <= u32::MAX);
    } else {
        lemma_packing_fits_drop_last(cs);
        assert(p.take(i) =~= cs.take(i));
        assert(p[i] == cs[i]);
        law_packing_keeps_addressing(p, module, mode, i, j);
        lemma_packed_lines_len(p, module, mode);
        lemma_totals_prefix(p, i + 1);
        assert(p.take(i + 1).drop_last() =~= p.take(i));
        assert(p.take(i + 1).last() == p[i]);
        lemma_packed_lens(p.take(i + 1));
    }
}

/// One draw line per packed container.
proof fn lemma_packed_lines_len<T>(cs: Seq<VxVertexContainer<T>>, module: VxModuleId, mode: VxRenderMode)
    ensures
        packed_lines(cs, module, mode).len() == cs.len(),
    decreases cs.len(),
{
    if cs.len() > 0 {
        lemma_packed_lines_len(cs.drop_last(), module, mode);
    }
}

} // verus!
