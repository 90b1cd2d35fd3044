use kdb::{Any, Atom, KBox, KMixedList, Runtime};

fn mixed_of(rt: &mut Runtime, vals: &[i32]) -> KBox<KMixedList> {
    let mut list = KBox::<KMixedList>::new_list(rt);
    for v in vals {
        let a = KBox::new_atom(rt, *v).into_any();
        list.push(rt, a);
    }
    list
}

fn ints_of(rt: &mut Runtime, list: &KBox<KMixedList>) -> Vec<i32> {
    let mut out = Vec::new();
    for u in list.as_ref().as_slice(rt) {
        let a = u.try_cast::<Atom<i32>>(rt).unwrap().into_owned(rt);
        out.push(a.as_ref().value(rt));
        a.release(rt);
    }
    out
}

#[test]
fn mixed_list_len_returns_number_of_elements() {
    let mut rt = Runtime::new();
    let mut list = KBox::<KMixedList>::new_list(&mut rt);
    let a = KBox::new_atom(&mut rt, 1i8).into_any();
    list.push(&mut rt, a);
    let b = KBox::new_atom(&mut rt, 2i32).into_any();
    list.push(&mut rt, b);
    assert_eq!(2, list.as_ref().len(&rt));
}

#[test]
fn mixed_list_len_returns_0_for_new_list() {
    let mut rt = Runtime::new();
    let list = KBox::<KMixedList>::new_list(&mut rt);
    assert_eq!(0, list.as_ref().len(&rt));
}

#[test]
fn mixed_list_iter_over_empty_returns_no_elements() {
    let mut rt = Runtime::new();
    let list = KBox::<KMixedList>::new_list(&mut rt);
    assert!(list.as_ref().as_slice(&rt).is_empty());
}

#[test]
fn mixed_list_push_adds_a_single_element_to_the_list() {
    let mut rt = Runtime::new();
    let list = mixed_of(&mut rt, &[2]);
    assert_eq!((1, vec![2]), (list.as_ref().len(&rt), ints_of(&mut rt, &list)));
}

#[test]
fn mixed_list_iter_returns_all_elements() {
    let mut rt = Runtime::new();
    let list = mixed_of(&mut rt, &[1, 2]);
    assert_eq!(vec![1, 2], ints_of(&mut rt, &list));
}

#[test]
fn mixed_list_collect_creates_collection() {
    let mut rt = Runtime::new();
    let v: Vec<i32> = (1..=10).collect();
    let list = mixed_of(&mut rt, &v);
    assert_eq!(v, ints_of(&mut rt, &list));
}

#[test]
fn mixed_list_extend_merges_two_lists_together() {
    let mut rt = Runtime::new();
    let a: Vec<i32> = (1..=5).collect();
    let b: Vec<i32> = (6..=10).collect();
    let mut list = mixed_of(&mut rt, &a);
    let list_2 = mixed_of(&mut rt, &b);
    list.join(&mut rt, list_2);
    assert_eq!((1..=10).collect::<Vec<i32>>(), ints_of(&mut rt, &list));
}

#[test]
fn index_rangefull_converts_mixed_list_to_slice() {
    let mut rt = Runtime::new();
    let v: Vec<i32> = (1..=10).collect();
    let list = mixed_of(&mut rt, &v);
    let slice = ints_of(&mut rt, &list);
    assert_eq!(&v[..], &slice[..]);
}

#[test]
fn index_range_converts_mixed_list_to_slice() {
    let mut rt = Runtime::new();
    let v: Vec<i32> = (1..=10).collect();
    let list = mixed_of(&mut rt, &v);
    let slice = ints_of(&mut rt, &list);
    assert_eq!(&v[1..5], &slice[1..5]);
}

#[test]
fn index_rangeto_converts_mixed_list_to_slice() {
    let mut rt = Runtime::new();
    let v: Vec<i32> = (1..=10).collect();
    let list = mixed_of(&mut rt, &v);
    let slice = ints_of(&mut rt, &list);
    assert_eq!(&v[..5], &slice[..5]);
}

#[test]
fn index_rangefrom_converts_mixed_list_to_slice() {
    let mut rt = Runtime::new();
    let v: Vec<i32> = (1..=10).collect();
    let list = mixed_of(&mut rt, &v);
    let slice = ints_of(&mut rt, &list);
    assert_eq!(&v[5..], &slice[5..]);
}

#[test]
fn mixed_list_index_usize_returns_item() {
    let mut rt = Runtime::new();
    let v: Vec<i32> = (1..=10).collect();
    let list = mixed_of(&mut rt, &v);
    let item = list.as_ref().get(&rt, 5).unwrap();
    let a = item.try_cast::<Atom<i32>>(&rt).unwrap().into_owned(&mut rt);
    assert_eq!(6, a.as_ref().value(&rt));
}

#[test]
fn pushed_item_is_moved_not_shared() {
    let mut rt = Runtime::new();
    let mut list = KBox::<KMixedList>::new_list(&mut rt);
    let a: KBox<Any> = KBox::new_atom(&mut rt, 9i32).into_any();
    let ak = a.as_raw();
    list.push(&mut rt, a);
    // the list is now the only owner: no extra reference was taken
    assert_eq!(1, rt.ref_count(ak));
    // releasing the list releases the element too
    list.release(&mut rt);
    assert!(!rt.is_live(ak));
}

#[test]
fn joining_a_shared_mixed_list_keeps_it_alive() {
    let mut rt = Runtime::new();
    let mut a = mixed_of(&mut rt, &[1]);
    let b = mixed_of(&mut rt, &[2]);
    let bk = b.as_raw();
    let elem = b.as_ref().get(&rt, 0).unwrap().as_raw();
    let b2 = b.borrow().into_owned(&mut rt);
    a.join(&mut rt, b2);
    assert_eq!(1, rt.ref_count(bk));
    assert_eq!(2, rt.ref_count(elem));
    assert_eq!(vec![1, 2], ints_of(&mut rt, &a));
    b.release(&mut rt);
    assert_eq!(1, rt.ref_count(elem));
}

#[test]
fn from_vec_takes_over_items_in_order() {
    let mut rt = Runtime::new();
    let items: Vec<KBox<Any>> = (1..=4).map(|v| KBox::new_atom(&mut rt, v as i32).into_any()).collect();
    let ks: Vec<usize> = items.iter().map(|b| b.as_raw()).collect();
    let list = KBox::<KMixedList>::from_vec(&mut rt, items);
    let got: Vec<usize> = list.as_ref().as_slice(&rt).iter().map(|u| u.as_raw()).collect();
    assert_eq!(ks, got);
    assert_eq!(vec![1, 2, 3, 4], ints_of(&mut rt, &list));
    for k in ks {
        assert_eq!(1, rt.ref_count(k));
    }
}
