use kdb::{symbol, Any, Atom, KBox, KError, List, Runtime, Table, Unowned};

#[test]
fn owned_handles_return_to_baseline() {
    let mut rt = Runtime::new();
    let keep = KBox::new_atom(&mut rt, 1i32);
    let base = rt.slot_count();
    let handles: Vec<KBox<Atom<i64>>> = (0..5).map(|i| KBox::new_atom(&mut rt, i as i64)).collect();
    assert_eq!(base + 5, rt.slot_count());
    for h in handles {
        h.release(&mut rt);
    }
    for k in base..base + 5 {
        assert!(!rt.is_live(k));
    }
    assert_eq!(1, rt.ref_count(keep.as_raw()));
}

#[test]
fn borrowed_handle_never_releases() {
    let mut rt = Runtime::new();
    let owned = KBox::new_atom(&mut rt, 3i32);
    let k = owned.as_raw();
    {
        let borrowed: Unowned<Any> = Unowned::from_raw(k);
        assert_eq!(k, borrowed.as_raw());
    }
    assert_eq!(1, rt.ref_count(k));
    let borrowed: Unowned<Any> = Unowned::from_raw(k);
    let second = borrowed.into_owned(&mut rt);
    assert_eq!(2, rt.ref_count(k));
    second.release(&mut rt);
    assert_eq!(1, rt.ref_count(k));
}

#[test]
fn into_raw_keeps_the_reference() {
    let mut rt = Runtime::new();
    let a = KBox::new_atom(&mut rt, 3i32).into_any();
    let k = a.into_raw();
    assert_eq!(1, rt.ref_count(k));
    let again = KBox::<Any>::from_raw(k);
    again.release(&mut rt);
    assert!(!rt.is_live(k));
}

#[test]
fn releasing_a_list_of_lists_frees_everything() {
    let mut rt = Runtime::new();
    let mut outer = KBox::<kdb::KMixedList>::new_list(&mut rt);
    let inner = KBox::<List<i32>>::from_slice(&mut rt, &[1, 2]).into_any();
    let ik = inner.as_raw();
    outer.push(&mut rt, inner);
    let ok = outer.as_raw();
    outer.release(&mut rt);
    assert!(!rt.is_live(ok));
    assert!(!rt.is_live(ik));
}

#[test]
fn error_value_carries_its_message() {
    let mut rt = Runtime::new();
    let e = KBox::<KError>::new_error(&mut rt, "type").unwrap();
    assert_eq!(Some("type"), e.as_ref().message(&rt));
    assert_eq!(kdb::KTypeCode(-128), e.borrow().into_any().try_cast::<KError>(&rt).map(|_| kdb::KTypeCode(-128)).unwrap());
    let err = e.into_error(&mut rt);
    assert_eq!(kdb::Error::QError("type".to_string()), err);
    // an error is not a symbol, though its payload is one
    let e2 = KBox::<KError>::new_error(&mut rt, "rank").unwrap().into_any();
    assert!(e2.try_cast::<Atom<kdb::Symbol>>(&mut rt).is_err());
    let _ = symbol(&mut rt, "x");
}

#[test]
fn table_from_dictionary() {
    let mut rt = Runtime::new();
    let mut d = KBox::new_dict(&mut rt);
    let name = symbol(&mut rt, "price");
    let k = KBox::new_atom(&mut rt, name).into_any();
    let col = KBox::<List<i64>>::from_slice(&mut rt, &[1, 2, 3]).into_any();
    d.as_ref().insert(&mut rt, k, col);
    let t = KBox::<Table>::from_dict(&mut rt, d);
    assert_eq!(1, t.as_ref().num_columns(&rt));
    assert_eq!(kdb::KTypeCode(98), t.borrow().into_any().try_cast::<Table>(&rt).map(|_| kdb::KTypeCode(98)).unwrap());
    assert_eq!(1, t.as_ref().column_names(&rt).len());
    assert_eq!(1, t.as_ref().columns(&rt).len());
}

#[test]
fn error_message_with_nul_is_refused() {
    let mut rt = Runtime::new();
    let before = rt.slot_count();
    let e = KBox::<KError>::new_error(&mut rt, "bad\0text");
    assert_eq!(Some(kdb::SymbolError::InternalNul(3)), e.err());
    assert_eq!(before, rt.slot_count());
}

#[test]
fn releasing_a_dictionary_frees_its_lists_and_entries() {
    let mut rt = Runtime::new();
    let d = KBox::new_dict(&mut rt);
    let k = KBox::new_atom(&mut rt, 1i32).into_any();
    let v = KBox::new_atom(&mut rt, 2i32).into_any();
    let (ki, vi) = (k.as_raw(), v.as_raw());
    d.as_ref().insert(&mut rt, k, v);
    let di = d.as_raw();
    d.release(&mut rt);
    for i in 0..rt.slot_count() {
        assert!(!rt.is_live(i));
    }
    assert!(!rt.is_live(di) && !rt.is_live(ki) && !rt.is_live(vi));
}

#[test]
fn shared_element_survives_its_list() {
    let mut rt = Runtime::new();
    let mut outer = KBox::<kdb::KMixedList>::new_list(&mut rt);
    let a = KBox::new_atom(&mut rt, 5i32).into_any();
    let keep = a.borrow().into_owned(&mut rt);
    outer.push(&mut rt, a);
    assert_eq!(2, rt.ref_count(keep.as_raw()));
    outer.release(&mut rt);
    assert_eq!(1, rt.ref_count(keep.as_raw()));
}
