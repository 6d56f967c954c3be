use qd_varallax::types::genelational_vector::VxGenVector;

fn values(v: &VxGenVector<i64>) -> Vec<i64> {
    let mut out = Vec::new();
    let mut it = v.iter();
    while let Some(x) = it.next() {
        out.push(*x);
    }
    out
}

#[test]
fn slot_vec_insert_get_remove() {
    let mut v: VxGenVector<i64> = VxGenVector::new();
    let a = v.insert(-1);
    let b = v.insert(-2);
    assert_eq!(v.get(a), Some(&-1));
    assert_eq!(v.remove(a), Some(-1));
    assert_eq!(v.get(a), None);
    assert_eq!(v.get(b), Some(&-2));
    assert_eq!(v.len(), 1);
    assert_eq!(v.free_slot_count(), 1);
}

#[test]
fn slot_vec_reuses_freed_slot_under_new_generation() {
    let mut v: VxGenVector<i64> = VxGenVector::new();
    let a = v.insert(1);
    v.remove(a);
    let c = v.insert(2);
    assert_eq!(c.raw_index(), a.raw_index());
    assert_ne!(a, c);
    assert!(!v.contains(a));
    assert!(v.contains(c));
}

#[test]
fn slot_vec_iterators_skip_free_slots() {
    let mut v: VxGenVector<i64> = VxGenVector::new();
    let a = v.insert(1);
    let b = v.insert(2);
    let c = v.insert(3);
    v.remove(b);
    assert_eq!(values(&v), vec![1, 3]);
    let mut ids = Vec::new();
    let mut it = v.iter_with_id();
    while let Some((id, _)) = it.next() {
        ids.push(id);
    }
    assert_eq!(ids, vec![a, c]);
    {
        let mut it = v.iter_mut();
        while let Some(x) = it.next() {
            *x += 1;
        }
    }
    {
        let mut it = v.iter_with_id_mut();
        while let Some((_, x)) = it.next() {
            *x *= 2;
        }
    }
    assert_eq!(values(&v), vec![4, 8]);
}

#[test]
fn slot_vec_get_two_mut_and_last() {
    let mut v: VxGenVector<i64> = VxGenVector::new();
    let a = v.insert(1);
    let b = v.insert(2);
    assert!(v.get_two_mut(a, a).is_none());
    {
        let (x, y) = v.get_two_mut(a, b).unwrap();
        std::mem::swap(x, y);
    }
    assert_eq!(values(&v), vec![2, 1]);
    assert_eq!(v.last(), Some(&1));
    if let Some(x) = v.last_mut() {
        *x = 7;
    }
    assert_eq!(v.get(b), Some(&7));
    if let Some(x) = v.get_mut(a) {
        *x = 8;
    }
    assert_eq!(v.get(a), Some(&8));
}

#[test]
fn slot_vec_clear_and_sizes() {
    let mut v: VxGenVector<i64> = VxGenVector::new();
    assert!(v.is_empty());
    v.insert(1);
    v.insert(2);
    assert_eq!(v.available_length(), 2);
    assert!(v.capacity() >= 2);
    v.clear();
    assert!(v.is_empty());
    assert_eq!(v.available_length(), 0);
    assert_eq!(v.last(), None);
}
