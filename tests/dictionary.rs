use kdb::{symbol, Any, Atom, Dictionary, KBox, Runtime, Unowned};

fn atom(rt: &mut Runtime, v: i32) -> KBox<Any> {
    KBox::new_atom(rt, v).into_any()
}

fn int_of(rt: &mut Runtime, u: Unowned<Any>) -> i32 {
    let a = u.try_cast::<Atom<i32>>(rt).unwrap().into_owned(rt);
    let v = a.as_ref().value(rt);
    a.release(rt);
    v
}

fn filled(rt: &mut Runtime) -> KBox<Dictionary> {
    let mut d = KBox::new_dict(rt);
    for (k, v) in [(1, 3), (2, 6), (4, 9)] {
        let k = atom(rt, k);
        let v = atom(rt, v);
        d.as_ref().insert(rt, k, v);
    }
    d
}

#[test]
fn new_creates_an_empty_dictionary() {
    let mut rt = Runtime::new();
    let d = KBox::new_dict(&mut rt);
    assert_eq!(0, d.as_ref().len(&rt));
    assert!(d.as_ref().is_empty(&rt));
}

#[test]
fn insert_adds_an_item_to_the_dictionary() {
    let mut rt = Runtime::new();
    let mut d = KBox::new_dict(&mut rt);
    let k = atom(&mut rt, 1);
    let v = atom(&mut rt, 3);
    d.as_ref().insert(&mut rt, k, v);
    let (ks, vs) = d.as_ref().iter(&rt);
    let pairs: Vec<(i32, i32)> = ks
        .into_iter()
        .zip(vs)
        .map(|(k, v)| (int_of(&mut rt, k), int_of(&mut rt, v)))
        .collect();
    assert_eq!(vec![(1, 3)], pairs);
}

#[test]
fn iter_returns_key_value_tuples() {
    let mut rt = Runtime::new();
    let d = filled(&mut rt);
    let (ks, vs) = d.as_ref().iter(&rt);
    let pairs: Vec<(i32, i32)> = ks
        .into_iter()
        .zip(vs)
        .map(|(k, v)| (int_of(&mut rt, k), int_of(&mut rt, v)))
        .collect();
    assert_eq!(vec![(1, 3), (2, 6), (4, 9)], pairs);
}

#[test]
fn len_returns_length_of_the_dictionary() {
    let mut rt = Runtime::new();
    let d = filled(&mut rt);
    assert_eq!(3, d.as_ref().len(&rt));
}

#[test]
fn index_key_returns_matching_item() {
    let mut rt = Runtime::new();
    let d = filled(&mut rt);
    let q = atom(&mut rt, 2);
    let found = d.as_ref().get(&rt, &q).unwrap();
    assert_eq!(6, int_of(&mut rt, found));
}

#[test]
fn insert_appends_items_to_dictionary() {
    let mut rt = Runtime::new();
    let mut dict = KBox::new_dict(&mut rt);
    let hello = symbol(&mut rt, "Hello");
    let world = symbol(&mut rt, "World");
    let k = KBox::new_atom(&mut rt, hello).into_any();
    let v = KBox::new_atom(&mut rt, world).into_any();
    dict.as_ref().insert(&mut rt, k, v);
    assert_eq!(dict.as_ref().len(&rt), 1);
}

#[test]
fn get_retrieves_items_by_key() {
    let mut rt = Runtime::new();
    let mut dict = KBox::new_dict(&mut rt);
    let hello = symbol(&mut rt, "Hello");
    let world = symbol(&mut rt, "World");
    let k = KBox::new_atom(&mut rt, hello).into_any();
    let v = KBox::new_atom(&mut rt, world).into_any();
    dict.as_ref().insert(&mut rt, k, v);
    let q = KBox::new_atom(&mut rt, hello).into_any();
    let val = dict.as_ref().get(&rt, &q).unwrap();
    let expected = KBox::new_atom(&mut rt, world).into_any();
    assert!(rt.atoms_equal(val.as_raw(), expected.as_raw()));
}

#[test]
fn two_inserts_keep_order_and_find_first_key() {
    let mut rt = Runtime::new();
    let mut d = KBox::new_dict(&mut rt);
    let k1 = atom(&mut rt, 10);
    let v1 = atom(&mut rt, 100);
    let k2 = atom(&mut rt, 20);
    let v2 = atom(&mut rt, 200);
    let (k1i, v1i, k2i, v2i) = (k1.as_raw(), v1.as_raw(), k2.as_raw(), v2.as_raw());
    d.as_ref().insert(&mut rt, k1, v1);
    d.as_ref().insert(&mut rt, k2, v2);
    assert_eq!(2, d.as_ref().len(&rt));
    let keys: Vec<usize> = d.as_ref().keys(&rt).iter().map(|u| u.as_raw()).collect();
    let values: Vec<usize> = d.as_ref().values(&rt).iter().map(|u| u.as_raw()).collect();
    assert_eq!(vec![k1i, k2i], keys);
    assert_eq!(vec![v1i, v2i], values);
    let q = atom(&mut rt, 10);
    assert_eq!(Some(v1i), d.as_ref().get(&rt, &q).map(|u| u.as_raw()));
    let absent = atom(&mut rt, 30);
    assert!(d.as_ref().get(&rt, &absent).is_none());
}

#[test]
fn repeated_key_finds_the_first_entry() {
    let mut rt = Runtime::new();
    let mut d = KBox::new_dict(&mut rt);
    for (k, v) in [(5, 1), (5, 2)] {
        let k = atom(&mut rt, k);
        let v = atom(&mut rt, v);
        d.as_ref().insert(&mut rt, k, v);
    }
    let q = atom(&mut rt, 5);
    let found = d.as_ref().get(&rt, &q).unwrap();
    assert_eq!(1, int_of(&mut rt, found));
}

#[test]
fn symbol_key_maps_to_int_value() {
    let mut rt = Runtime::new();
    let mut d = KBox::new_dict(&mut rt);
    let a = symbol(&mut rt, "a");
    let k = KBox::new_atom(&mut rt, a).into_any();
    let v = atom(&mut rt, 1);
    d.as_ref().insert(&mut rt, k, v);
    let a2 = symbol(&mut rt, "a");
    let q = KBox::new_atom(&mut rt, a2).into_any();
    let found = d.as_ref().get(&rt, &q).unwrap();
    let one = atom(&mut rt, 1);
    assert!(rt.atoms_equal(found.as_raw(), one.as_raw()));
}

#[test]
fn key_of_another_type_is_not_found() {
    let mut rt = Runtime::new();
    let d = filled(&mut rt);
    let q = KBox::new_atom(&mut rt, 2i64).into_any();
    assert!(d.as_ref().get(&rt, &q).is_none());
}

#[test]
fn from_pairs_keeps_entry_order() {
    let mut rt = Runtime::new();
    let mut pairs = Vec::new();
    for (k, v) in [(1, 3), (2, 6), (4, 9)] {
        let k = atom(&mut rt, k);
        let v = atom(&mut rt, v);
        pairs.push((k, v));
    }
    let d = KBox::<Dictionary>::from_pairs(&mut rt, pairs);
    assert_eq!(3, d.as_ref().len(&rt));
    let q = atom(&mut rt, 4);
    let found = d.as_ref().get(&rt, &q).unwrap();
    assert_eq!(9, int_of(&mut rt, found));
}
