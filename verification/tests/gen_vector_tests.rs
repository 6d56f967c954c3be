use qd_varallax::types::gen_vector::{VxGenIndex, VxGenVector};

fn collect(v: &VxGenVector<u32>) -> Vec<u32> {
    let mut out = Vec::new();
    let mut it = v.iter();
    while let Some(x) = it.next() {
        out.push(*x);
    }
    out
}

#[test]
fn insert_then_get_returns_value() {
    let mut v: VxGenVector<u32> = VxGenVector::new();
    let a = v.insert(10);
    let b = v.insert(20);
    assert_eq!(v.get(a), Some(&10));
    assert_eq!(v.get(b), Some(&20));
    assert_eq!(v.len(), 2);
}

#[test]
fn new_vector_is_empty() {
    let v: VxGenVector<u32> = VxGenVector::new();
    assert!(v.is_empty());
    assert_eq!(v.len(), 0);
    assert_eq!(v.available_length(), 0);
    assert_eq!(v.free_slot_count(), 0);
    assert_eq!(v.last(), None);
    assert_eq!(v.last_id(), None);
}

#[test]
fn first_handles_are_fresh_slots_of_generation_zero() {
    let mut v: VxGenVector<u32> = VxGenVector::new();
    let a = v.insert(1);
    let b = v.insert(2);
    assert_eq!(a.raw_index(), 0);
    assert_eq!(b.raw_index(), 1);
    assert_eq!(a, VxGenIndex::default());
}

#[test]
fn remove_returns_value_and_handle_goes_stale() {
    let mut v: VxGenVector<u32> = VxGenVector::new();
    let a = v.insert(7);
    assert_eq!(v.remove(a), Some(7));
    assert_eq!(v.get(a), None);
    assert!(!v.contains(a));
    assert_eq!(v.remove(a), None);
    assert_eq!(v.len(), 0);
    assert_eq!(v.available_length(), 1);
    assert_eq!(v.free_slot_count(), 1);
}

#[test]
fn removed_slot_is_reused_with_next_generation() {
    let mut v: VxGenVector<u32> = VxGenVector::new();
    let a = v.insert(1);
    v.remove(a);
    let c = v.insert(3);
    assert_eq!(c.raw_index(), a.raw_index());
    assert_ne!(c, a);
    assert_eq!(v.get(a), None);
    assert_eq!(v.get(c), Some(&3));
    assert_eq!(v.available_length(), 1);
}

#[test]
fn most_recently_freed_slot_is_reused_first() {
    let mut v: VxGenVector<u32> = VxGenVector::new();
    let a = v.insert(1);
    let _b = v.insert(2);
    let c = v.insert(3);
    v.remove(a);
    v.remove(c);
    let d = v.insert(4);
    let e = v.insert(5);
    let f = v.insert(6);
    assert_eq!(d.raw_index(), 2);
    assert_eq!(e.raw_index(), 0);
    assert_eq!(f.raw_index(), 3);
    assert_eq!(collect(&v), vec![5, 2, 4, 6]);
}

#[test]
fn stale_handle_does_not_reach_new_value() {
    let mut v: VxGenVector<u32> = VxGenVector::new();
    let a = v.insert(1);
    v.remove(a);
    let _c = v.insert(2);
    assert_eq!(v.get(a), None);
    assert_eq!(v.remove(a), None);
    assert_eq!(v.len(), 1);
}

#[test]
fn get_mut_changes_value() {
    let mut v: VxGenVector<u32> = VxGenVector::new();
    let a = v.insert(1);
    if let Some(x) = v.get_mut(a) {
        *x = 42;
    }
    assert_eq!(v.get(a), Some(&42));
    v.remove(a);
    assert!(v.get_mut(a).is_none());
}

#[test]
fn get_two_mut_returns_both_in_argument_order() {
    let mut v: VxGenVector<u32> = VxGenVector::new();
    let a = v.insert(1);
    let b = v.insert(2);
    {
        let (x, y) = v.get_two_mut(b, a).unwrap();
        assert_eq!(*x, 2);
        assert_eq!(*y, 1);
        *x = 20;
        *y = 10;
    }
    assert_eq!(v.get(a), Some(&10));
    assert_eq!(v.get(b), Some(&20));
}

#[test]
fn get_two_mut_same_slot_is_none() {
    let mut v: VxGenVector<u32> = VxGenVector::new();
    let a = v.insert(1);
    assert!(v.get_two_mut(a, a).is_none());
}

#[test]
fn get_two_mut_with_stale_handle_is_none() {
    let mut v: VxGenVector<u32> = VxGenVector::new();
    let a = v.insert(1);
    let b = v.insert(2);
    v.remove(b);
    assert!(v.get_two_mut(a, b).is_none());
}

#[test]
fn last_skips_free_slots() {
    let mut v: VxGenVector<u32> = VxGenVector::new();
    let a = v.insert(1);
    let b = v.insert(2);
    v.remove(b);
    assert_eq!(v.last(), Some(&1));
    assert_eq!(v.last_id(), Some(a));
    if let Some(x) = v.last_mut() {
        *x = 9;
    }
    assert_eq!(v.get(a), Some(&9));
}

#[test]
fn iter_with_id_yields_live_handles_in_slot_order() {
    let mut v: VxGenVector<u32> = VxGenVector::new();
    let a = v.insert(1);
    let b = v.insert(2);
    let c = v.insert(3);
    v.remove(b);
    let mut it = v.iter_with_id();
    let mut got = Vec::new();
    while let Some((id, x)) = it.next() {
        got.push((id, *x));
    }
    assert_eq!(got, vec![(a, 1), (c, 3)]);
}

#[test]
fn iter_mut_changes_every_live_value() {
    let mut v: VxGenVector<u32> = VxGenVector::new();
    v.insert(1);
    let b = v.insert(2);
    v.insert(3);
    v.remove(b);
    {
        let mut it = v.iter_mut();
        while let Some(x) = it.next() {
            *x *= 10;
        }
    }
    assert_eq!(collect(&v), vec![10, 30]);
}

#[test]
fn iter_with_id_mut_changes_values() {
    let mut v: VxGenVector<u32> = VxGenVector::new();
    let a = v.insert(1);
    let b = v.insert(2);
    {
        let mut it = v.iter_with_id_mut();
        while let Some((id, x)) = it.next() {
            *x = id.raw_index() as u32 + 100;
        }
    }
    assert_eq!(v.get(a), Some(&100));
    assert_eq!(v.get(b), Some(&101));
}

#[test]
fn insert_with_key_stores_value_built_from_its_own_handle() {
    let mut v: VxGenVector<VxGenIndex> = VxGenVector::new();
    let a = v.insert_with_key(|id| id);
    assert_eq!(v.get(a), Some(&a));
    v.remove(a);
    let b = v.insert_with_key(|id| id);
    assert_eq!(v.get(b), Some(&b));
    assert_eq!(b.raw_index(), a.raw_index());
}

#[test]
fn clear_forgets_everything() {
    let mut v: VxGenVector<u32> = VxGenVector::new();
    let a = v.insert(1);
    v.insert(2);
    v.clear();
    assert!(v.is_empty());
    assert_eq!(v.available_length(), 0);
    assert_eq!(v.get(a), None);
    let c = v.insert(5);
    assert_eq!(c.raw_index(), 0);
    assert_eq!(collect(&v), vec![5]);
}

#[test]
fn capacity_covers_length() {
    let mut v: VxGenVector<u32> = VxGenVector::new();
    for i in 0..10 {
        v.insert(i);
    }
    assert!(v.capacity() >= v.available_length());
}

#[test]
fn raw_index_u32_is_slot_index() {
    let mut v: VxGenVector<u32> = VxGenVector::new();
    v.insert(0);
    let b = v.insert(1);
    assert_eq!(b.raw_index_u32(), 1);
}

#[test]
fn iteration_yields_as_many_values_as_len() {
    let mut v: VxGenVector<u32> = VxGenVector::new();
    let a = v.insert(1);
    v.insert(2);
    v.insert(3);
    v.remove(a);
    assert_eq!(collect(&v).len(), v.len());
}
