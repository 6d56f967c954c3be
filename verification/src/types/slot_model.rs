//! The mathematical model shared by the generational vectors: a sequence of
//! slots, each with a generation and an optional value, and the free list
//! that decides which slot the next insertion reuses.
use vstd::prelude::*;

verus! {

/// What a slot holds: its current generation and, when the slot is in use,
/// the stored value.
pub type VxSlotModel<T> = (u64, Option<T>);

/// Slot `i` is in use with generation `g`: a handle `(i, g)` resolves.
pub open spec fn slot_live<T>(m: Seq<VxSlotModel<T>>, i: int, g: u64) -> bool {
    &&& 0 <= i < m.len()
    &&& m[i].1 is Some
    &&& m[i].0 == g
}

/// The value stored in slot `i`.
pub open spec fn slot_value<T>(m: Seq<VxSlotModel<T>>, i: int) -> T {
    m[i].1->0
}

/// Number of slots in use.
pub open spec fn live_count<T>(m: Seq<VxSlotModel<T>>) -> nat
    decreases m.len(),
{
    if m.len() == 0 {
        0
    } else {
        (if m[0].1 is Some {
            1nat
        } else {
            0nat
        }) + live_count(m.drop_first())
    }
}

/// The stored values, in slot order.
pub open spec fn live_items<T>(m: Seq<VxSlotModel<T>>) -> Seq<T>
    decreases m.len(),
{
    if m.len() == 0 {
        Seq::empty()
    } else {
        let rest = live_items(m.drop_first());
        match m[0].1 {
            Some(d) => seq![d] + rest,
            None => rest,
        }
    }
}

/// Index of the last slot in use, or -1.
pub open spec fn last_live_slot<T>(m: Seq<VxSlotModel<T>>) -> int
    decreases m.len(),
{
    if m.len() == 0 {
        -1
    } else if m.last().1 is Some {
        m.len() - 1
    } else {
        last_live_slot(m.drop_last())
    }
}

/// The free list names free slots of `m`, each once.
pub open spec fn free_list_valid<T>(m: Seq<VxSlotModel<T>>, free: Seq<usize>) -> bool {
    &&& forall|k: int| 0 <= k < free.len() ==> (#[trigger] free[k]) < m.len() && m[free[k] as int].1 is None
    &&& forall|i: int| 0 <= i < m.len() && (#[trigger] m[i]).1 is None ==> free.contains(i as usize)
    &&& free.no_duplicates()
}

/// Slot that the next insertion uses: the head of the free list, or a new
/// slot at the end.
pub open spec fn next_slot<T>(m: Seq<VxSlotModel<T>>, free: Seq<usize>) -> int {
    if free.len() > 0 {
        free[0] as int
    } else {
        m.len() as int
    }
}

/// Generation of the handle that the next insertion hands out.
pub open spec fn next_generation<T>(m: Seq<VxSlotModel<T>>, free: Seq<usize>) -> u64 {
    if free.len() > 0 {
        m[free[0] as int].0
    } else {
        0
    }
}

/// `(m2, free2)` is `(m, free)` after storing `data`, which went to slot `i`
/// with generation `g`.
pub open spec fn inserted_at<T>(
    m: Seq<VxSlotModel<T>>,
    free: Seq<usize>,
    data: T,
    i: int,
    g: u64,
    m2: Seq<VxSlotModel<T>>,
    free2: Seq<usize>,
) -> bool {
    &&& i == next_slot(m, free)
    &&& g == next_generation(m, free)
    &&& if free.len() > 0 {
        &&& m2 == m.update(i, (g, Some(data)))
        &&& free2 == free.drop_first()
    } else {
        &&& m2 == m.push((0u64, Some(data)))
        &&& free2 == free
    }
}

/// `(m2, free2)` is `(m, free)` after removing the value in slot `i`, whose
/// generation was `g`: the slot becomes free with the next generation and
/// goes to the front of the free list.
pub open spec fn removed_at<T>(
    m: Seq<VxSlotModel<T>>,
    free: Seq<usize>,
    i: int,
    g: u64,
    m2: Seq<VxSlotModel<T>>,
    free2: Seq<usize>,
) -> bool {
    &&& m2 == m.update(i, ((g + 1) as u64, None::<T>))
    &&& free2 == seq![i as usize] + free
}

// ---------------------------------------------------------------------------
// Lemmas.
// ---------------------------------------------------------------------------

/// No more values are stored than there are slots.
pub proof fn lemma_count_le_len<T>(m: Seq<VxSlotModel<T>>)
    ensures
        live_count(m) <= m.len(),
    decreases m.len(),
{
    if m.len() > 0 {
        lemma_count_le_len(m.drop_first());
    }
}

/// Replacing one slot changes the count by what leaves and what arrives.
pub proof fn lemma_count_update<T>(m: Seq<VxSlotModel<T>>, i: int, v: VxSlotModel<T>)
    requires
        0 <= i < m.len(),
    ensures
        live_count(m.update(i, v)) + (if m[i].1 is Some {
            1int
        } else {
            0int
        }) == live_count(m) + (if v.1 is Some {
            1int
        } else {
            0int
        }),
    decreases m.len(),
{
    if i > 0 {
        lemma_count_update(m.drop_first(), i - 1, v);
        assert(m.update(i, v).drop_first() =~= m.drop_first().update(i - 1, v));
    } else {
        assert(m.update(i, v).drop_first() =~= m.drop_first());
    }
}

/// A slot pushed at the end adds its value to the count.
pub proof fn lemma_count_push<T>(m: Seq<VxSlotModel<T>>, v: VxSlotModel<T>)
    ensures
        live_count(m.push(v)) == live_count(m) + (if v.1 is Some {
            1nat
        } else {
            0nat
        }),
    decreases m.len(),
{
    if m.len() > 0 {
        lemma_count_push(m.drop_first(), v);
        assert(m.push(v).drop_first() =~= m.drop_first().push(v));
    } else {
        assert(m.push(v).drop_first() =~= m);
    }
}

/// A free slot keeps the number of used slots below the number of slots.
pub proof fn lemma_count_lt_len<T>(m: Seq<VxSlotModel<T>>, i: int)
    requires
        0 <= i < m.len(),
        m[i].1 is None,
    ensures
        live_count(m) < m.len(),
    decreases m.len(),
{
    if i > 0 {
        lemma_count_lt_len(m.drop_first(), i - 1);
    } else {
        lemma_count_le_len(m.drop_first());
    }
}

/// A used slot makes the count positive.
pub proof fn lemma_count_pos<T>(m: Seq<VxSlotModel<T>>, i: int)
    requires
        0 <= i < m.len(),
        m[i].1 is Some,
    ensures
        live_count(m) > 0,
    decreases m.len(),
{
    if i > 0 {
        lemma_count_pos(m.drop_first(), i - 1);
    }
}

/// The values from slot `p` on: the value in slot `p`, if any, then those
/// after it.
pub proof fn lemma_items_step<T>(m: Seq<VxSlotModel<T>>, p: int)
    requires
        0 <= p < m.len(),
    ensures
        live_items(m.skip(p)) == (match m[p].1 {
            Some(d) => seq![d] + live_items(m.skip(p + 1)),
            None => live_items(m.skip(p + 1)),
        }),
{
    assert(m.skip(p).drop_first() =~= m.skip(p + 1));
}

/// Past the last slot there is nothing.
pub proof fn lemma_items_end<T>(m: Seq<VxSlotModel<T>>)
    ensures
        live_items(m.skip(m.len() as int)) == Seq::<T>::empty(),
        m.skip(m.len() as int) == Seq::<VxSlotModel<T>>::empty(),
{
    assert(m.skip(m.len() as int) =~= Seq::<VxSlotModel<T>>::empty());
}

/// The values that iteration yields are as many as the length reports.
pub proof fn law_items_match_count<T>(m: Seq<VxSlotModel<T>>)
    ensures
        live_items(m).len() == live_count(m),
    decreases m.len(),
{
    if m.len() > 0 {
        law_items_match_count(m.drop_first());
    }
}

/// The last used slot is used, and nothing after it is.
pub proof fn lemma_last_slot<T>(m: Seq<VxSlotModel<T>>)
    ensures
        -1 <= last_live_slot(m) < m.len(),
        last_live_slot(m) >= 0 ==> m[last_live_slot(m)].1 is Some,
        forall|j: int| last_live_slot(m) < j < m.len() ==> (#[trigger] m[j]).1 is None,
    decreases m.len(),
{
    if m.len() > 0 && m.last().1 is None {
        let p = m.drop_last();
        lemma_last_slot(p);
        assert forall|j: int| last_live_slot(m) < j < m.len() implies (#[trigger] m[j]).1 is None by {
            if j < m.len() - 1 {
                assert(m[j] == p[j]);
            }
        }
    }
}

// ---------------------------------------------------------------------------
// Laws of insertion and removal.
// ---------------------------------------------------------------------------

/// A handle is stale when its slot exists and has moved on to a later
/// generation.
pub open spec fn handle_stale<T>(m: Seq<VxSlotModel<T>>, i: int, g: u64) -> bool {
    0 <= i < m.len() && g < m[i].0
}

/// After an insertion, the returned handle reads back the stored value, one
/// more slot is in use, the free list stays valid, and every other handle
/// resolves exactly as before, to the same value.
pub proof fn law_insert_then_get<T>(
    m: Seq<VxSlotModel<T>>,
    free: Seq<usize>,
    data: T,
    i: int,
    g: u64,
    m2: Seq<VxSlotModel<T>>,
    free2: Seq<usize>,
)
    requires
        m.len() <= usize::MAX,
        free_list_valid(m, free),
        inserted_at(m, free, data, i, g, m2, free2),
    ensures
        slot_live(m2, i, g),
        slot_value(m2, i) == data,
        live_count(m2) == live_count(m) + 1,
        free_list_valid(m2, free2),
        forall|j: int, h: u64|
            (j != i || h != g) ==> (#[trigger] slot_live(m2, j, h) <==> slot_live(m, j, h)),
        forall|j: int, h: u64| j != i && #[trigger] slot_live(m, j, h) ==> slot_value(m2, j) == slot_value(m, j),
{
    if free.len() > 0 {
        assert(free[0] < m.len());
        lemma_count_update(m, i, (g, Some(data)));
        assert forall|k: int| 0 <= k < free2.len() implies (#[trigger] free2[k]) < m2.len() && m2[free2[k] as int].1 is None by {
            assert(free2[k] == free[k + 1]);
            assert(free[0] != free[k + 1]);
        }
        assert forall|j: int| 0 <= j < m2.len() && (#[trigger] m2[j]).1 is None implies free2.contains(j as usize) by {
            assert(j != i);
            assert(free.contains(j as usize));
            let k = choose|k: int| 0 <= k < free.len() && free[k] == j as usize;
            assert(k != 0);
            assert(free2[k - 1] == j as usize);
        }
        assert forall|a: int, b: int| 0 <= a < free2.len() && 0 <= b < free2.len() && a != b implies free2[a] != free2[b] by {
            assert(free2[a] == free[a + 1]);
            assert(free2[b] == free[b + 1]);
        }
    } else {
        lemma_count_push(m, (0u64, Some(data)));
        assert forall|j: int| 0 <= j < m2.len() && (#[trigger] m2[j]).1 is None implies free2.contains(j as usize) by {
            assert(m[j] == m2[j]);
        }
    }
}

/// After removing a live value, its handle no longer resolves (under any
/// generation), one slot fewer is in use, the free list stays valid, and
/// every handle to another slot resolves exactly as before.
pub proof fn law_remove_then_get<T>(
    m: Seq<VxSlotModel<T>>,
    free: Seq<usize>,
    i: int,
    g: u64,
    m2: Seq<VxSlotModel<T>>,
    free2: Seq<usize>,
)
    requires
        m.len() <= usize::MAX,
        free_list_valid(m, free),
        slot_live(m, i, g),
        g < u64::MAX,
        removed_at(m, free, i, g, m2, free2),
    ensures
        forall|h: u64| !(#[trigger] slot_live(m2, i, h)),
        handle_stale(m2, i, g),
        live_count(m2) + 1 == live_count(m),
        free_list_valid(m2, free2),
        forall|j: int, h: u64| j != i ==> (#[trigger] slot_live(m2, j, h) <==> slot_live(m, j, h)),
        forall|j: int, h: u64| j != i && #[trigger] slot_live(m, j, h) ==> slot_value(m2, j) == slot_value(m, j),
{
    lemma_count_update(m, i, ((g + 1) as u64, None::<T>));
    assert forall|k: int| 0 <= k < free2.len() implies (#[trigger] free2[k]) < m2.len() && m2[free2[k] as int].1 is None by {
        if k > 0 {
            assert(free2[k] == free[k - 1]);
        }
    }
    assert forall|j: int| 0 <= j < m2.len() && (#[trigger] m2[j]).1 is None implies free2.contains(j as usize) by {
        if j == i {
            assert(free2[0] == j as usize);
        } else {
            assert(free.contains(j as usize));
            let k = choose|k: int| 0 <= k < free.len() && free[k] == j as usize;
            assert(free2[k + 1] == j as usize);
        }
    }
    assert forall|a: int, b: int| 0 <= a < free2.len() && 0 <= b < free2.len() && a != b implies free2[a] != free2[b] by {
        if a > 0 && b > 0 {
            assert(free2[a] == free[a - 1]);
            assert(free2[b] == free[b - 1]);
        } else if a == 0 {
            assert(free2[b] == free[b - 1]);
            assert(m[free[b - 1] as int].1 is None);
        } else {
            assert(free2[a] == free[a - 1]);
            assert(m[free[a - 1] as int].1 is None);
        }
    }
}

/// Insertion and removal never lower the generation of a slot, never drop a
/// slot, and so never bring a stale handle back to life.
pub proof fn law_stale_handle_stays_stale<T>(
    m: Seq<VxSlotModel<T>>,
    free: Seq<usize>,
    m2: Seq<VxSlotModel<T>>,
    free2: Seq<usize>,
    data: T,
    i: int,
    g: u64,
    j: int,
    h: u64,
)
    requires
        free_list_valid(m, free),
        inserted_at(m, free, data, i, g, m2, free2) || (slot_live(m, i, g) && g < u64::MAX && removed_at(
            m,
            free,
            i,
            g,
            m2,
            free2,
        )),
        handle_stale(m, j, h),
    ensures
        m.len() <= m2.len(),
        forall|k: int| 0 <= k < m.len() ==> (#[trigger] m2[k]).0 >= m[k].0,
        handle_stale(m2, j, h),
        !slot_live(m2, j, h),
{
}

/// A removal followed by an insertion reuses the freed slot under the next
/// generation, so the removed handle and the new one differ.
pub proof fn law_remove_then_insert_reuses_slot<T>(
    m: Seq<VxSlotModel<T>>,
    free: Seq<usize>,
    i: int,
    g: u64,
    m2: Seq<VxSlotModel<T>>,
    free2: Seq<usize>,
    data: T,
    i3: int,
    g3: u64,
    m3: Seq<VxSlotModel<T>>,
    free3: Seq<usize>,
)
    requires
        m.len() <= usize::MAX,
        free_list_valid(m, free),
        slot_live(m, i, g),
        g < u64::MAX,
        removed_at(m, free, i, g, m2, free2),
        inserted_at(m2, free2, data, i3, g3, m3, free3),
    ensures
        i3 == i,
        g3 == g + 1,
        !slot_live(m3, i, g),
        slot_live(m3, i3, g3),
        free3 == free,
        live_count(m3) == live_count(m),
{
    law_remove_then_get(m, free, i, g, m2, free2);
    law_insert_then_get(m2, free2, data, i3, g3, m3, free3);
    assert(free3 =~= free);
}

/// Removing what was just inserted hands the value back and leaves the same
/// number of values and the same free list; only the generation of the slot
/// has moved on.
pub proof fn law_insert_then_remove<T>(
    m: Seq<VxSlotModel<T>>,
    free: Seq<usize>,
    data: T,
    i: int,
    g: u64,
    m2: Seq<VxSlotModel<T>>,
    free2: Seq<usize>,
    m3: Seq<VxSlotModel<T>>,
    free3: Seq<usize>,
)
    requires
        m.len() < usize::MAX,
        free_list_valid(m, free),
        inserted_at(m, free, data, i, g, m2, free2),
        g < u64::MAX,
        removed_at(m2, free2, i, g, m3, free3),
    ensures
        slot_value(m2, i) == data,
        live_count(m3) == live_count(m),
        free.len() > 0 ==> free3 == free,
        free.len() == 0 ==> free3 == seq![i as usize],
        m3.len() == (if free.len() > 0 { m.len() } else { m.len() + 1 }),
        forall|j: int| 0 <= j < m.len() && j != i ==> #[trigger] m3[j] == m[j],
        m3[i] == ((g + 1) as u64, None::<T>),
{
    law_insert_then_get(m, free, data, i, g, m2, free2);
    law_remove_then_get(m2, free2, i, g, m3, free3);
    if free.len() > 0 {
        assert(free3 =~= free);
    } else {
        assert(free3 =~= seq![i as usize]);
    }
}

/// The values of two runs of slots, one after the other.
pub proof fn lemma_items_concat<T>(a: Seq<VxSlotModel<T>>, b: Seq<VxSlotModel<T>>)
    ensures
        live_items(a + b) == live_items(a) + live_items(b),
    decreases a.len(),
{
    if a.len() == 0 {
        assert(a + b =~= b);
        assert(live_items(a) + live_items(b) =~= live_items(b));
    } else {
        lemma_items_concat(a.drop_first(), b);
        assert((a + b).drop_first() =~= a.drop_first() + b);
        assert((a + b)[0] == a[0]);
        match a[0].1 {
            Some(d) => {
                assert(seq![d] + (live_items(a.drop_first()) + live_items(b)) =~= (seq![d] + live_items(a.drop_first()))
                    + live_items(b));
            },
            None => {},
        }
    }
}

/// The values of the slots before `i`, of slot `i`, and of the slots after it.
proof fn lemma_items_split<T>(m: Seq<VxSlotModel<T>>, i: int)
    requires
        0 <= i < m.len(),
    ensures
        live_items(m) == live_items(m.take(i)) + live_items(seq![m[i]]) + live_items(m.skip(i + 1)),
{
    assert(m =~= m.take(i) + seq![m[i]] + m.skip(i + 1));
    lemma_items_concat(m.take(i) + seq![m[i]], m.skip(i + 1));
    lemma_items_concat(m.take(i), seq![m[i]]);
}

/// The values that a single slot contributes.
proof fn lemma_items_single<T>(x: VxSlotModel<T>)
    ensures
        live_items(seq![x]) == (match x.1 {
            Some(d) => seq![d],
            None => Seq::<T>::empty(),
        }),
{
    let e = seq![x].drop_first();
    assert(e =~= Seq::<VxSlotModel<T>>::empty());
    assert(live_items(e) == Seq::<T>::empty());
    assert(seq![x][0] == x);
    match x.1 {
        Some(d) => {
            assert(seq![d] + live_items(e) =~= seq![d]);
        },
        None => {},
    }
}

/// Storing a value puts it among the values that iteration yields, between
/// the values of the slots before its slot and those after it; nothing else
/// changes.
pub proof fn law_insert_items<T>(
    m: Seq<VxSlotModel<T>>,
    free: Seq<usize>,
    data: T,
    i: int,
    g: u64,
    m2: Seq<VxSlotModel<T>>,
    free2: Seq<usize>,
)
    requires
        free_list_valid(m, free),
        inserted_at(m, free, data, i, g, m2, free2),
    ensures
        i < m.len() ==> live_items(m2) == live_items(m.take(i)) + seq![data] + live_items(m.skip(i + 1)),
        i == m.len() ==> live_items(m2) == live_items(m).push(data),
{
    assert(0 <= i < m2.len());
    lemma_items_split(m2, i);
    lemma_items_single(m2[i]);
    assert(m2.take(i) =~= m.take(i));
    if i < m.len() {
        assert(m2.skip(i + 1) =~= m.skip(i + 1));
    } else {
        assert(m.take(i) =~= m);
        assert(m2.skip(i + 1) =~= Seq::<VxSlotModel<T>>::empty());
        assert(live_items(m2.skip(i + 1)) == Seq::<T>::empty());
        assert(live_items(m) + seq![data] + Seq::<T>::empty() =~= live_items(m).push(data));
    }
}

/// Removing the value in slot `i` takes exactly that value out of the values
/// that iteration yields.
pub proof fn law_remove_items<T>(
    m: Seq<VxSlotModel<T>>,
    free: Seq<usize>,
    i: int,
    g: u64,
    m2: Seq<VxSlotModel<T>>,
    free2: Seq<usize>,
)
    requires
        slot_live(m, i, g),
        removed_at(m, free, i, g, m2, free2),
    ensures
        live_items(m) == live_items(m.take(i)) + seq![slot_value(m, i)] + live_items(m.skip(i + 1)),
        live_items(m2) == live_items(m.take(i)) + live_items(m.skip(i + 1)),
{
    lemma_items_split(m, i);
    lemma_items_single(m[i]);
    lemma_items_split(m2, i);
    lemma_items_single(m2[i]);
    assert(m2.take(i) =~= m.take(i));
    assert(m2.skip(i + 1) =~= m.skip(i + 1));
    assert(live_items(m.take(i)) + Seq::<T>::empty() =~= live_items(m.take(i)));
}

} // verus!
