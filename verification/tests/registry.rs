use auto_vec::Arena;
use auto_vec::AutoChild;
use auto_vec::AutoError;
use auto_vec::AutoVec;

struct MyData {
    n: i32,
}

#[test]
fn main() {
    let mut arena: Arena<MyData> = Arena::new();
    let t1 = AutoChild::new(&mut arena, MyData { n: 1 });
    let t2 = AutoChild::new(&mut arena, MyData { n: 0 });
    let v = AutoVec::new(&mut arena);
    v.add(&mut arena, &t1);
    v.add(&mut arena, &t2);
    println!("{}", t1.access(&arena).n);
}

fn collect(v: &AutoVec, arena: &Arena<i32>) -> Vec<i32> {
    let mut out = Vec::new();
    let mut it = v.iter(arena);
    while let Some(x) = it.next(arena) {
        out.push(*x);
    }
    out
}

#[test]
fn insertion_order() {
    let mut arena: Arena<i32> = Arena::new();
    let v = AutoVec::new(&mut arena);
    let c1 = AutoChild::new(&mut arena, 10);
    let c2 = AutoChild::new(&mut arena, 20);
    let c3 = AutoChild::new(&mut arena, 30);
    v.add(&mut arena, &c1);
    v.add(&mut arena, &c2);
    v.add(&mut arena, &c3);
    assert_eq!(v.len(&arena), 3);
    assert_eq!(collect(&v, &arena), vec![10, 20, 30]);
}

#[test]
fn swap_remove_semantics() {
    let mut arena: Arena<i32> = Arena::new();
    let v = AutoVec::new(&mut arena);
    let c1 = AutoChild::new(&mut arena, 10);
    let c2 = AutoChild::new(&mut arena, 20);
    let c3 = AutoChild::new(&mut arena, 30);
    v.add(&mut arena, &c1);
    v.add(&mut arena, &c2);
    v.add(&mut arena, &c3);
    assert!(v.remove(&mut arena, &c2).is_ok());
    assert_eq!(v.len(&arena), 2);
    assert_eq!(collect(&v, &arena), vec![10, 30]);
    assert_eq!(c2.owner(&arena), None);
}

#[test]
fn auto_detach_on_destruction() {
    let mut arena: Arena<i32> = Arena::new();
    let v = AutoVec::new(&mut arena);
    let c1 = AutoChild::new(&mut arena, 1);
    let c2 = AutoChild::new(&mut arena, 2);
    v.add(&mut arena, &c1);
    v.add(&mut arena, &c2);
    c1.destroy(&mut arena);
    assert_eq!(v.len(&arena), 1);
    assert_eq!(v.index(&arena, 0), Ok(&2));
}

#[test]
fn transfer_between_registries() {
    let mut arena: Arena<i32> = Arena::new();
    let a = AutoVec::new(&mut arena);
    let b = AutoVec::new(&mut arena);
    let c = AutoChild::new(&mut arena, 7);
    a.add(&mut arena, &c);
    assert_eq!(a.len(&arena), 1);
    b.add(&mut arena, &c);
    assert_eq!(a.len(&arena), 0);
    assert_eq!(b.len(&arena), 1);
    assert_eq!(c.owner(&arena), Some(b));
    b.add(&mut arena, &c);
    assert_eq!(b.len(&arena), 1);
    assert_eq!(c.owner(&arena), Some(b));
}

#[test]
fn registry_first_teardown() {
    let mut arena: Arena<i32> = Arena::new();
    let v = AutoVec::new(&mut arena);
    let c1 = AutoChild::new(&mut arena, 1);
    let c2 = AutoChild::new(&mut arena, 2);
    v.add(&mut arena, &c1);
    v.add(&mut arena, &c2);
    v.destroy(&mut arena);
    assert_eq!(c1.owner(&arena), None);
    assert_eq!(c2.owner(&arena), None);
    assert_eq!(*c1.access(&arena), 1);
    assert_eq!(*c2.access(&arena), 2);
    c1.destroy(&mut arena);
    assert_eq!(c2.owner(&arena), None);
    assert_eq!(*c2.access(&arena), 2);
}

#[test]
fn out_of_range_access() {
    let mut arena: Arena<i32> = Arena::new();
    let v = AutoVec::new(&mut arena);
    assert_eq!(v.index(&arena, 0), Err(AutoError::IndexOutOfRange));
    let c = AutoChild::new(&mut arena, 5);
    v.add(&mut arena, &c);
    assert_eq!(v.index(&arena, 1), Err(AutoError::IndexOutOfRange));
    assert_eq!(v.index(&arena, 0), Ok(&5));
}

#[test]
fn unregistered_removal() {
    let mut arena: Arena<i32> = Arena::new();
    let v = AutoVec::new(&mut arena);
    let inside = AutoChild::new(&mut arena, 1);
    let outside = AutoChild::new(&mut arena, 2);
    v.add(&mut arena, &inside);
    assert_eq!(v.remove(&mut arena, &outside), Err(AutoError::NotRegistered));
    assert_eq!(v.len(&arena), 1);
    assert_eq!(collect(&v, &arena), vec![1]);
    let w = AutoVec::new(&mut arena);
    let elsewhere = AutoChild::new(&mut arena, 3);
    w.add(&mut arena, &elsewhere);
    assert_eq!(v.remove(&mut arena, &elsewhere), Err(AutoError::NotRegistered));
    assert_eq!(w.len(&arena), 1);
}

#[test]
fn append_moves_all_members() {
    let mut arena: Arena<i32> = Arena::new();
    let a = AutoVec::new(&mut arena);
    let b = AutoVec::new(&mut arena);
    let c1 = AutoChild::new(&mut arena, 1);
    let c2 = AutoChild::new(&mut arena, 2);
    let c3 = AutoChild::new(&mut arena, 3);
    a.add(&mut arena, &c1);
    a.add(&mut arena, &c2);
    b.add(&mut arena, &c3);
    a.append(&mut arena, &b);
    assert_eq!(a.len(&arena), 3);
    assert_eq!(b.len(&arena), 0);
    assert_eq!(collect(&a, &arena), vec![1, 2, 3]);
    assert_eq!(c3.owner(&arena), Some(a));
}

#[test]
fn clear_detaches_members() {
    let mut arena: Arena<i32> = Arena::new();
    let v = AutoVec::new(&mut arena);
    let c1 = AutoChild::new(&mut arena, 1);
    let c2 = AutoChild::new(&mut arena, 2);
    v.add(&mut arena, &c1);
    v.add(&mut arena, &c2);
    v.clear(&mut arena);
    assert_eq!(v.len(&arena), 0);
    assert_eq!(c1.owner(&arena), None);
    assert_eq!(c2.owner(&arena), None);
    assert_eq!(*c1.access(&arena), 1);
    v.add(&mut arena, &c1);
    assert_eq!(v.len(&arena), 1);
}

#[test]
fn replace_value_keeps_membership() {
    let mut arena: Arena<i32> = Arena::new();
    let v = AutoVec::new(&mut arena);
    let c = AutoChild::new(&mut arena, 1);
    v.add(&mut arena, &c);
    c.replace_value(&mut arena, 9);
    assert_eq!(c.owner(&arena), Some(v));
    assert_eq!(v.len(&arena), 1);
    assert_eq!(v.index(&arena, 0), Ok(&9));
}

#[test]
fn iter_mut_allows_value_updates() {
    let mut arena: Arena<i32> = Arena::new();
    let v = AutoVec::new(&mut arena);
    let c1 = AutoChild::new(&mut arena, 0);
    let c2 = AutoChild::new(&mut arena, 1);
    v.add(&mut arena, &c1);
    v.add(&mut arena, &c2);
    let mut it = v.iter_mut(&arena);
    while let Some(c) = it.next(&arena) {
        c.replace_value(&mut arena, 3);
    }
    assert_eq!(collect(&v, &arena), vec![3, 3]);
}

#[test]
fn with_capacity_and_shrink() {
    let mut arena: Arena<i32> = Arena::new();
    let v = AutoVec::with_capacity(&mut arena, 16);
    assert_eq!(v.len(&arena), 0);
    let c1 = AutoChild::new(&mut arena, 4);
    let c2 = AutoChild::new(&mut arena, 5);
    v.add(&mut arena, &c1);
    v.add(&mut arena, &c2);
    v.shrink_to(&mut arena, 2);
    assert_eq!(collect(&v, &arena), vec![4, 5]);
    v.shrink_to_fit(&mut arena);
    assert_eq!(v.len(&arena), 2);
    assert_eq!(collect(&v, &arena), vec![4, 5]);
    assert_eq!(c1.owner(&arena), Some(v));
}

#[test]
fn index_ref_points_back() {
    let mut arena: Arena<i32> = Arena::new();
    let v = AutoVec::new(&mut arena);
    let c1 = AutoChild::new(&mut arena, 10);
    let c2 = AutoChild::new(&mut arena, 20);
    v.add(&mut arena, &c1);
    v.add(&mut arena, &c2);
    let got = v.index_ref(&arena, 1).unwrap();
    assert_eq!(got, c2);
    assert_eq!(got.owner(&arena), Some(v));
    assert_eq!(v.index_ref(&arena, 2), Err(AutoError::IndexOutOfRange));
}

#[test]
fn access_mut_writes_through() {
    let mut arena: Arena<i32> = Arena::new();
    let v = AutoVec::new(&mut arena);
    let c = AutoChild::new(&mut arena, 1);
    v.add(&mut arena, &c);
    *c.access_mut(&mut arena) = 42;
    assert_eq!(*c.access(&arena), 42);
    assert_eq!(c.owner(&arena), Some(v));
    assert_eq!(v.len(&arena), 1);
}

#[test]
fn index_mut_writes_through() {
    let mut arena: Arena<i32> = Arena::new();
    let v = AutoVec::new(&mut arena);
    let c1 = AutoChild::new(&mut arena, 10);
    let c2 = AutoChild::new(&mut arena, 20);
    v.add(&mut arena, &c1);
    v.add(&mut arena, &c2);
    *v.index_mut(&mut arena, 1).unwrap() = 99;
    assert_eq!(v.index(&arena, 1), Ok(&99));
    assert_eq!(*c2.access(&arena), 99);
    assert!(v.index_mut(&mut arena, 2).is_err());
    assert_eq!(v.len(&arena), 2);
}

#[test]
fn eviction_from_middle_slot() {
    let mut arena: Arena<i32> = Arena::new();
    let a = AutoVec::new(&mut arena);
    let b = AutoVec::new(&mut arena);
    let c1 = AutoChild::new(&mut arena, 1);
    let c2 = AutoChild::new(&mut arena, 2);
    let c3 = AutoChild::new(&mut arena, 3);
    a.add(&mut arena, &c1);
    a.add(&mut arena, &c2);
    a.add(&mut arena, &c3);
    b.add(&mut arena, &c1);
    assert_eq!(a.len(&arena), 2);
    assert_eq!(collect(&a, &arena), vec![3, 2]);
    assert_eq!(b.len(&arena), 1);
    assert_eq!(c1.owner(&arena), Some(b));
    assert!(a.remove(&mut arena, &c3).is_ok());
    assert_eq!(collect(&a, &arena), vec![2]);
}

#[test]
fn destroy_unowned_element() {
    let mut arena: Arena<i32> = Arena::new();
    let c = AutoChild::new(&mut arena, 8);
    assert_eq!(c.owner(&arena), None);
    c.destroy(&mut arena);
    let v = AutoVec::new(&mut arena);
    assert_eq!(v.len(&arena), 0);
}

#[test]
fn destroying_owned_element_from_middle() {
    let mut arena: Arena<i32> = Arena::new();
    let v = AutoVec::new(&mut arena);
    let c1 = AutoChild::new(&mut arena, 10);
    let c2 = AutoChild::new(&mut arena, 20);
    let c3 = AutoChild::new(&mut arena, 30);
    v.add(&mut arena, &c1);
    v.add(&mut arena, &c2);
    v.add(&mut arena, &c3);
    c2.destroy(&mut arena);
    assert_eq!(v.len(&arena), 2);
    assert_eq!(collect(&v, &arena), vec![10, 30]);
}
