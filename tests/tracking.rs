use change_tracking_vec::ChangeTrackingVec;
use std::collections::hash_map::DefaultHasher;
use std::hash::{Hash, Hasher};

#[test]
fn it_works() {
    let mut ct_vec = ChangeTrackingVec::new();
    assert_eq!(ct_vec.changed(), false);
    assert_eq!(ct_vec.revision(), 0);
    assert_eq!(ct_vec.changed(), false);
    assert_eq!(ct_vec.revision(), 0);

    ct_vec.push(1);
    assert_eq!(ct_vec.changed(), true);
    assert_eq!(ct_vec.revision(), 1);
    assert_eq!(ct_vec.changed(), false);
    assert_eq!(ct_vec.revision(), 1);

    let _ = ct_vec.pop();
    assert_eq!(ct_vec.changed(), true);
    assert_eq!(ct_vec.revision(), 2);

    let mut ct_vec_2 = ChangeTrackingVec::new();
    ct_vec_2.extend_from_slice(&mut [0, 1, 2, 3]);
    assert_eq!(ct_vec_2.changed(), true);
    assert_eq!(ct_vec_2.revision(), 1);

    ct_vec.append(&mut ct_vec_2);
    assert_eq!(ct_vec.changed(), true);
    assert_eq!(ct_vec.revision(), 3);
    assert_eq!(ct_vec_2.changed(), true);
    assert_eq!(ct_vec_2.revision(), 2);
}

fn hash_of(v: &ChangeTrackingVec<i32>) -> u64 {
    let mut h = DefaultHasher::new();
    v.hash(&mut h);
    h.finish()
}

#[test]
fn every_counted_call_adds_one() {
    let mut v: ChangeTrackingVec<i32> = ChangeTrackingVec::new();
    v.push(3);
    v.push(1);
    v.push(2);
    v.retain(|_| true);
    v.truncate(10);
    v.reserve(4);
    v.shrink_to_fit();
    v.count();
    assert_eq!(v.revision(), 8);
    assert_eq!(v.as_slice(), &[3, 1, 2]);
    let _ = v.len();
    let _ = v.is_empty();
    let _ = v.inner();
    let _ = v.capacity();
    assert_eq!(v.revision(), 8);
}

#[test]
fn capacity_calls_are_counted() {
    let mut v: ChangeTrackingVec<u8> = ChangeTrackingVec::with_capacity(16);
    assert_eq!(v.revision(), 0);
    assert!(v.capacity() >= 16);
    v.reserve_exact(8);
    assert!(v.try_reserve(8).is_ok());
    assert!(v.try_reserve_exact(8).is_ok());
    v.shrink_to(2);
    assert_eq!(v.revision(), 4);
    assert!(v.is_empty());
}

#[test]
fn changed_reports_once_per_burst() {
    let mut v = ChangeTrackingVec::new();
    assert!(!v.changed());
    v.push('a');
    v.push('b');
    assert!(v.changed());
    assert!(!v.changed());
    assert_eq!(v.revision(), 2);
}

#[test]
fn append_of_nothing_counts_on_both() {
    let mut a: ChangeTrackingVec<i32> = ChangeTrackingVec::new();
    let mut b: ChangeTrackingVec<i32> = ChangeTrackingVec::new();
    a.append(&mut b);
    assert_eq!(a.revision(), 1);
    assert_eq!(b.revision(), 1);
    assert!(a.is_empty() && b.is_empty());
}

#[test]
fn equality_and_hash_ignore_revisions() {
    let mut a: ChangeTrackingVec<i32> = ChangeTrackingVec::new();
    a.push(1);
    a.push(2);
    a.push(9);
    a.pop();
    let b = ChangeTrackingVec::from(vec![1, 2]);
    assert_ne!(a.revision(), b.revision());
    assert!(a == b);
    assert_eq!(hash_of(&a), hash_of(&b));
    let c = ChangeTrackingVec::from(vec![2, 1]);
    assert!(a != c);
}

#[test]
fn insert_and_remove_keep_order() {
    let mut v = ChangeTrackingVec::from(vec![10, 20, 30, 40]);
    v.insert(1, 15);
    assert_eq!(v.as_slice(), &[10, 15, 20, 30, 40]);
    assert_eq!(v.remove(3), 30);
    assert_eq!(v.as_slice(), &[10, 15, 20, 40]);
    assert_eq!(v.swap_remove(0), 10);
    assert_eq!(v.as_slice(), &[40, 15, 20]);
    assert_eq!(v.revision(), 3);
}

#[test]
fn into_array_needs_exact_length() {
    let mut v = ChangeTrackingVec::from(vec![1, 2, 3]);
    v.push(4);
    let back = match v.into_array::<3>() {
        Ok(_) => panic!("length 4 is not 3"),
        Err(back) => back,
    };
    assert_eq!(back.revision(), 1);
    assert_eq!(back.as_slice(), &[1, 2, 3, 4]);
    let arr: [i32; 4] = match back.into_array::<4>() {
        Ok(a) => a,
        Err(_) => panic!("length 4 is 4"),
    };
    assert_eq!(arr, [1, 2, 3, 4]);
}

#[test]
fn into_array_of_empty() {
    let v: ChangeTrackingVec<u8> = ChangeTrackingVec::new();
    let arr: [u8; 0] = match v.into_array::<0>() {
        Ok(a) => a,
        Err(_) => panic!("empty fits zero"),
    };
    assert_eq!(arr.len(), 0);
}

#[test]
fn drain_and_splice_take_a_range() {
    let mut v = ChangeTrackingVec::from(vec![0, 1, 2, 3, 4, 5]);
    let taken = v.drain(1, 3);
    assert_eq!(taken, vec![1, 2]);
    assert_eq!(v.as_slice(), &[0, 3, 4, 5]);
    let out = v.splice(2, 4, vec![7, 8, 9]);
    assert_eq!(out, vec![4, 5]);
    assert_eq!(v.as_slice(), &[0, 3, 7, 8, 9]);
    let none = v.drain(5, 5);
    assert!(none.is_empty());
    assert_eq!(v.revision(), 3);
}

#[test]
fn retain_filters_in_order() {
    let mut v = ChangeTrackingVec::from(vec![1, 2, 3, 4, 5, 6]);
    v.retain(|x| x % 2 == 0);
    assert_eq!(v.as_slice(), &[2, 4, 6]);
    v.retain(|_| false);
    assert!(v.is_empty());
    assert_eq!(v.revision(), 2);
}

#[test]
fn dedup_variants() {
    let mut v = ChangeTrackingVec::from(vec![1, 1, 2, 2, 2, 3, 1, 1]);
    v.dedup();
    assert_eq!(v.as_slice(), &[1, 2, 3, 1]);

    let mut w = ChangeTrackingVec::from(vec![10, 11, 20, 21, 30, 12]);
    w.dedup_by_key(|x| x / 10);
    assert_eq!(w.as_slice(), &[10, 20, 30, 12]);

    let mut u = ChangeTrackingVec::from(vec![1, 2, 4, 5, 7]);
    u.dedup_by(|a, b| *a - *b <= 2);
    assert_eq!(u.as_slice(), &[1, 4, 7]);

    let mut e: ChangeTrackingVec<i32> = ChangeTrackingVec::new();
    e.dedup();
    assert_eq!(e.revision(), 1);
    assert_eq!(v.revision() + w.revision() + u.revision(), 3);
}

#[test]
fn resize_both_ways() {
    let mut v = ChangeTrackingVec::from(vec![5, 6]);
    v.resize(4, 0);
    assert_eq!(v.as_slice(), &[5, 6, 0, 0]);
    v.resize(1, 9);
    assert_eq!(v.as_slice(), &[5]);
    v.resize_with(3, || 7);
    assert_eq!(v.as_slice(), &[5, 7, 7]);
    v.resize_with(0, || 8);
    assert!(v.is_empty());
    assert_eq!(v.revision(), 4);
}

#[test]
fn extend_from_within_copies_a_range() {
    let mut v = ChangeTrackingVec::from(vec![String::from("a"), String::from("b"), String::from("c")]);
    v.extend_from_within(1, 3);
    assert_eq!(v.len(), 5);
    assert_eq!(v.as_slice()[3], "b");
    assert_eq!(v.as_slice()[4], "c");
    assert_eq!(v.revision(), 1);
}

#[test]
fn mutable_views_are_counted() {
    let mut v = ChangeTrackingVec::from(vec![1, 2, 3]);
    v.as_mut_slice()[0] = 9;
    v.inner_mut().push(4);
    assert_eq!(v.as_slice(), &[9, 2, 3, 4]);
    assert_eq!(v.revision(), 2);
    v.clear();
    assert!(v.is_empty());
    assert_eq!(v.revision(), 3);
}

#[test]
fn pop_on_empty_still_counts() {
    let mut v: ChangeTrackingVec<i32> = ChangeTrackingVec::default();
    assert_eq!(v.pop(), None);
    assert_eq!(v.revision(), 1);
    assert!(v.changed());
}

#[test]
fn conversions_keep_elements() {
    let mut v = ChangeTrackingVec::from(vec![1u8, 2, 3]);
    v.push(4);
    let b = v.clone();
    assert_eq!(b.revision(), 0);
    assert!(b == v);
    let boxed = v.into_boxed_slice();
    assert_eq!(&*boxed, &[1, 2, 3, 4]);
    assert_eq!(b.into_inner(), vec![1, 2, 3, 4]);
}

#[test]
fn spare_capacity_is_counted() {
    let mut v: ChangeTrackingVec<u32> = ChangeTrackingVec::with_capacity(4);
    v.push(1);
    let spare = v.spare_capacity_mut();
    assert!(spare.len() >= 3);
    assert_eq!(v.revision(), 2);
    assert_eq!(v.as_slice(), &[1]);
}

#[test]
fn built_from_other_containers() {
    let from_slice = ChangeTrackingVec::from(&[1, 2, 3][..]);
    let from_array = ChangeTrackingVec::from([1, 2, 3]);
    let boxed: Box<[i32]> = vec![1, 2, 3].into_boxed_slice();
    let from_box = ChangeTrackingVec::from(boxed);
    assert!(from_slice == from_array);
    assert!(from_array == from_box);
    assert_eq!(from_box.revision(), 0);
    let bytes = ChangeTrackingVec::from("hé");
    assert_eq!(bytes.as_slice(), &[0x68, 0xc3, 0xa9]);
    let back: Box<[i32]> = Box::from(from_slice);
    assert_eq!(&*back, &[1, 2, 3]);
}

#[test]
fn reading_leaves_the_revision() {
    let mut v = ChangeTrackingVec::from(vec![4, 5, 6]);
    v.push(7);
    let total: i32 = (&v).into_iter().sum();
    assert_eq!(total, 22);
    assert_eq!(v[1], 5);
    let as_vec: &Vec<i32> = v.as_ref();
    assert_eq!(as_vec.len(), 4);
    let as_slice: &[i32] = v.as_ref();
    assert_eq!(as_slice[3], 7);
    assert_eq!(v.revision(), 1);
    let owned: Vec<i32> = v.into_iter().collect();
    assert_eq!(owned, vec![4, 5, 6, 7]);
}

#[test]
fn ordering_follows_elements() {
    let mut a = ChangeTrackingVec::from(vec![1, 2, 3]);
    a.count();
    let b = ChangeTrackingVec::from(vec![1, 2, 4]);
    let c = ChangeTrackingVec::from(vec![1, 2]);
    assert!(a < b);
    assert!(c < a);
    assert_eq!(a.partial_cmp(&ChangeTrackingVec::from(vec![1, 2, 3])), Some(std::cmp::Ordering::Equal));
    let n = ChangeTrackingVec::from(vec![f64::NAN]);
    assert_eq!(n.partial_cmp(&ChangeTrackingVec::from(vec![1.0])), None);
}

#[test]
fn capacity_covers_length_and_overflow_is_an_error() {
    let mut v = ChangeTrackingVec::from(vec![1u8, 2, 3]);
    assert!(v.capacity() >= v.len());
    assert!(v.try_reserve_exact(usize::MAX).is_err());
    assert!(v.try_reserve(usize::MAX).is_err());
    assert_eq!(v.as_slice(), &[1, 2, 3]);
    assert_eq!(v.revision(), 2);
}

#[test]
fn built_from_a_mutable_slice() {
    let mut data = [7, 8, 9];
    let v = ChangeTrackingVec::from(&mut data[..]);
    assert_eq!(v.as_slice(), &[7, 8, 9]);
    assert_eq!(data, [7, 8, 9]);
    assert_eq!(v.revision(), 0);
    let refs: Vec<&i32> = (&v).into_iter().collect();
    assert_eq!(refs, vec![&7, &8, &9]);
}
