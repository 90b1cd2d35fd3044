use kdb::{symbol, Any, Atom, ConversionError, Date, Guid, KBox, KTypeCode, Minute, Month, Runtime, Second, Time, Timespan, Timestamp};

#[test]
fn value_returns_underlying_value() {
    let mut rt = Runtime::new();
    let rt = &mut rt;
    assert_eq!(KBox::new_atom(rt, 12u8).as_ref().value(rt), 12u8);
    assert_eq!(KBox::new_atom(rt, 13i16).as_ref().value(rt), 13i16);
    assert_eq!(KBox::new_atom(rt, 14i32).as_ref().value(rt), 14i32);
    assert_eq!(KBox::new_atom(rt, 15i64).as_ref().value(rt), 15i64);
    assert_eq!(KBox::new_atom(rt, true).as_ref().value(rt), true);

    assert_eq!(KBox::new_atom(rt, Second::new(5)).as_ref().value(rt), Second::new(5));
    assert_eq!(KBox::new_atom(rt, Minute::new(6)).as_ref().value(rt), Minute::new(6));
    assert_eq!(KBox::new_atom(rt, Date::new(2020, 2, 6)).as_ref().value(rt), Date::new(2020, 2, 6));
    assert_eq!(KBox::new_atom(rt, Month::new(8)).as_ref().value(rt), Month::new(8));
    assert_eq!(KBox::new_atom(rt, Time::new(9)).as_ref().value(rt), Time::new(9));
    assert_eq!(KBox::new_atom(rt, Timestamp::from_raw(11)).as_ref().value(rt), Timestamp::from_raw(11));
    assert_eq!(KBox::new_atom(rt, Timespan::new(12)).as_ref().value(rt), Timespan::new(12));

    let foo = symbol(rt, "Foo");
    assert_eq!(KBox::new_atom(rt, foo).as_ref().value(rt), symbol(rt, "Foo"));
    let g = Guid::from_u128(u128::from_be_bytes([12u8; 16]));
    assert_eq!(KBox::new_atom(rt, g).as_ref().value(rt), Guid::from_u128(u128::from_be_bytes([12u8; 16])));
}

#[test]
fn set_value_changes_underlying_value() {
    let mut rt = Runtime::new();
    let rt = &mut rt;
    let a = KBox::new_atom(rt, 11i8);
    a.as_ref().set_value(rt, 12i8);
    assert_eq!(a.as_ref().value(rt), 12i8);
    let a = KBox::new_atom(rt, 12u8);
    a.as_ref().set_value(rt, 13u8);
    assert_eq!(a.as_ref().value(rt), 13u8);
    let a = KBox::new_atom(rt, 13i16);
    a.as_ref().set_value(rt, 14i16);
    assert_eq!(a.as_ref().value(rt), 14i16);
    let a = KBox::new_atom(rt, 14i32);
    a.as_ref().set_value(rt, 15i32);
    assert_eq!(a.as_ref().value(rt), 15i32);
    let a = KBox::new_atom(rt, 15i64);
    a.as_ref().set_value(rt, 16i64);
    assert_eq!(a.as_ref().value(rt), 16i64);
    let a = KBox::new_atom(rt, true);
    a.as_ref().set_value(rt, false);
    assert_eq!(a.as_ref().value(rt), false);

    let a = KBox::new_atom(rt, Second::new(5));
    a.as_ref().set_value(rt, Second::new(6));
    assert_eq!(a.as_ref().value(rt), Second::new(6));
    let a = KBox::new_atom(rt, Minute::new(6));
    a.as_ref().set_value(rt, Minute::new(7));
    assert_eq!(a.as_ref().value(rt), Minute::new(7));
    let a = KBox::new_atom(rt, Date::new(2020, 2, 6));
    a.as_ref().set_value(rt, Date::new(2020, 2, 7));
    assert_eq!(a.as_ref().value(rt), Date::new(2020, 2, 7));
    let a = KBox::new_atom(rt, Month::new(8));
    a.as_ref().set_value(rt, Month::new(9));
    assert_eq!(a.as_ref().value(rt), Month::new(9));
    let a = KBox::new_atom(rt, Time::new(9));
    a.as_ref().set_value(rt, Time::new(10));
    assert_eq!(a.as_ref().value(rt), Time::new(10));
    let a = KBox::new_atom(rt, Timestamp::from_raw(11));
    a.as_ref().set_value(rt, Timestamp::from_raw(12));
    assert_eq!(a.as_ref().value(rt), Timestamp::from_raw(12));
    let a = KBox::new_atom(rt, Timespan::new(12));
    a.as_ref().set_value(rt, Timespan::new(13));
    assert_eq!(a.as_ref().value(rt), Timespan::new(13));

    let foo = symbol(rt, "Foo");
    let bar = symbol(rt, "Bar");
    let a = KBox::new_atom(rt, foo);
    a.as_ref().set_value(rt, bar);
    assert_eq!(a.as_ref().value(rt), symbol(rt, "Bar"));
    let a = KBox::new_atom(rt, Guid::from_u128(13));
    a.as_ref().set_value(rt, Guid::from_u128(14));
    assert_eq!(a.as_ref().value(rt), Guid::from_u128(14));
}

#[test]
fn atoms_round_trip_to_any() {
    let mut rt = Runtime::new();
    let rt = &mut rt;
    let a = KBox::new_atom(rt, 12u8).into_any();
    assert_eq!(a.try_cast::<Atom<u8>>(rt).unwrap().as_ref().value(rt), 12u8);
    let a = KBox::new_atom(rt, 13i16).into_any();
    assert_eq!(a.try_cast::<Atom<i16>>(rt).unwrap().as_ref().value(rt), 13i16);
    let a = KBox::new_atom(rt, 14i32).into_any();
    assert_eq!(a.try_cast::<Atom<i32>>(rt).unwrap().as_ref().value(rt), 14i32);
    let a = KBox::new_atom(rt, 15i64).into_any();
    assert_eq!(a.try_cast::<Atom<i64>>(rt).unwrap().as_ref().value(rt), 15i64);
    let a = KBox::new_atom(rt, true).into_any();
    assert_eq!(a.try_cast::<Atom<bool>>(rt).unwrap().as_ref().value(rt), true);

    let a = KBox::new_atom(rt, Second::new(5)).into_any();
    assert_eq!(a.try_cast::<Atom<Second>>(rt).unwrap().as_ref().value(rt), Second::new(5));
    let a = KBox::new_atom(rt, Minute::new(6)).into_any();
    assert_eq!(a.try_cast::<Atom<Minute>>(rt).unwrap().as_ref().value(rt), Minute::new(6));
    let a = KBox::new_atom(rt, Date::new(2020, 2, 6)).into_any();
    assert_eq!(a.try_cast::<Atom<Date>>(rt).unwrap().as_ref().value(rt), Date::new(2020, 2, 6));
    let a = KBox::new_atom(rt, Month::new(8)).into_any();
    assert_eq!(a.try_cast::<Atom<Month>>(rt).unwrap().as_ref().value(rt), Month::new(8));
    let a = KBox::new_atom(rt, Time::new(9)).into_any();
    assert_eq!(a.try_cast::<Atom<Time>>(rt).unwrap().as_ref().value(rt), Time::new(9));
    let a = KBox::new_atom(rt, Timestamp::from_raw(11)).into_any();
    assert_eq!(a.try_cast::<Atom<Timestamp>>(rt).unwrap().as_ref().value(rt), Timestamp::from_raw(11));
    let a = KBox::new_atom(rt, Timespan::new(12)).into_any();
    assert_eq!(a.try_cast::<Atom<Timespan>>(rt).unwrap().as_ref().value(rt), Timespan::new(12));

    let foo = symbol(rt, "Foo");
    let a = KBox::new_atom(rt, foo).into_any();
    assert_eq!(a.try_cast::<Atom<kdb::Symbol>>(rt).unwrap().as_ref().value(rt), symbol(rt, "Foo"));
    let g = Guid::from_u128(u128::from_be_bytes([12u8; 16]));
    let a = KBox::new_atom(rt, g).into_any();
    assert_eq!(a.try_cast::<Atom<Guid>>(rt).unwrap().as_ref().value(rt), g);
}

#[test]
fn downcast_to_another_kind_names_both_tags() {
    let mut rt = Runtime::new();
    let a: KBox<Any> = KBox::new_atom(&mut rt, 7i32).into_any();
    let k = a.as_raw();
    let e = a.try_cast::<Atom<i64>>(&mut rt).err().unwrap();
    assert_eq!(e, ConversionError::InvalidKCast { from: KTypeCode(-6), to: KTypeCode(-7) });
    // the failed cast gave up the only reference
    assert!(!rt.is_live(k));
}

#[test]
fn downcast_of_a_list_to_an_atom_is_refused() {
    let mut rt = Runtime::new();
    let l = KBox::<kdb::List<i32>>::new_list(&mut rt).into_any();
    let e = l.try_cast::<Atom<i32>>(&mut rt).err().unwrap();
    assert_eq!(e, ConversionError::InvalidKCast { from: KTypeCode(6), to: KTypeCode(-6) });
}

#[test]
fn two_plus_two_atoms() {
    let mut rt = Runtime::new();
    let a = KBox::new_atom(&mut rt, 2i64);
    let b = KBox::new_atom(&mut rt, 2i64);
    assert_eq!(a.as_ref().value(&rt) + b.as_ref().value(&rt), 4);
}
