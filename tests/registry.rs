use kdb::{
    symbol, Attr, Connection, ConnectionError, ConversionError, Date, Error, KTypeCode, Runtime,
    SerializationMode, Symbol, SymbolError, Timespan, Timestamp, TypeCode,
};

#[test]
fn atom_tag_is_negated_list_tag() {
    for k in [TypeCode::Boolean, TypeCode::Guid, TypeCode::Int, TypeCode::Symbol, TypeCode::Time] {
        assert_eq!(k.as_atom().0, -k.as_list().0);
    }
    assert_eq!(KTypeCode(-6), TypeCode::Int.as_atom());
    assert_eq!(KTypeCode(7), TypeCode::Long.as_list());
    assert_eq!(Some(TypeCode::Minute), TypeCode::from_code(17));
    assert_eq!(None, TypeCode::from_code(3));
}

#[test]
fn tag_names_and_sizes() {
    assert_eq!("int atom", KTypeCode(-6).name());
    assert_eq!("datetime list", KTypeCode(15).name());
    assert_eq!("mixed list", KTypeCode(0).name());
    assert_eq!("dict", KTypeCode(99).name());
    assert_eq!("error", KTypeCode(-128).name());
    assert_eq!("Unknown", KTypeCode(50).name());
    assert_eq!(4, KTypeCode(-6).atom_size());
    assert_eq!(16, KTypeCode(2).atom_size());
    assert_eq!(8, KTypeCode(0).atom_size());
    assert_eq!(1, KTypeCode(1).atom_size());
    assert_eq!(2, KTypeCode(-5).atom_size());
    assert_eq!(-6, KTypeCode(-6).to_i32());
}

#[test]
fn symbols_are_interned() {
    let mut rt = Runtime::new();
    let a = symbol(&mut rt, "abc");
    let b = symbol(&mut rt, "abc");
    let c = symbol(&mut rt, "abd");
    assert_eq!(a, b);
    assert_ne!(a, c);
    assert_eq!(Ok("abc"), a.try_as_str(&rt));
    assert_eq!("abd", c.as_str_unchecked(&rt));
}

#[test]
fn symbol_with_nul_is_refused() {
    let mut rt = Runtime::new();
    assert_eq!(Err(SymbolError::InternalNul(2)), Symbol::new(&mut rt, "ab\0c"));
    assert!(Symbol::new(&mut rt, "").is_ok());
}

#[test]
fn unknown_symbol_is_not_a_string() {
    let rt = Runtime::new();
    assert_eq!(Err(ConversionError::InvalidString), Symbol(3).try_as_str(&rt));
}

#[test]
fn dates_and_times() {
    assert_eq!(0, Date::new(2000, 1, 1).0);
    assert_eq!(-10957, Date::new(1970, 1, 1).0);
    assert_eq!(7341, Date::new(2020, 2, 6).0);
    assert_eq!(60, Date::new(2000, 3, 1).0);
    assert_eq!(Date(0), Date::from_unix_secs(946_684_800));
    assert_eq!(946_684_800, Date(0).to_unix_secs());
    assert_eq!(Timestamp(0), Timestamp::from_nanos_unix(946_684_800_000_000_000));
    assert_eq!(946_684_800_000_000_005, Timestamp(5).to_nanos_unix());
    assert_eq!(Ok(Timespan(5)), Timespan::try_from_nanos(5));
    assert_eq!(Err(ConversionError::DurationTooLong), Timespan::try_from_nanos(1u128 << 63));
}

#[test]
fn attributes_and_modes() {
    assert!(Attr(1).sorted());
    assert!(Attr(2).unique());
    assert!(Attr(3).partioned());
    assert!(Attr(5).grouped());
    assert!(!Attr(0).sorted());
    assert_eq!(-1, SerializationMode::InProc.code());
    assert_eq!(3, SerializationMode::Compress.code());
}

#[test]
fn connect_codes() {
    assert_eq!(Some(ConnectionError::BadCredentials), Connection::from_code(0).err());
    assert_eq!(Some(ConnectionError::CouldNotConnect), Connection::from_code(-1).err());
    assert_eq!(Some(ConnectionError::Timeout), Connection::from_code(-2).err());
    let c = Connection::from_code(7).ok().unwrap();
    assert_eq!(7, c.handle());
    assert_eq!(-7, c.async_handle());
    assert_eq!(0, Connection::new().handle());
}

#[test]
fn call_results() {
    let mut rt = Runtime::new();
    let c = Connection::from_code(5).ok().unwrap();
    assert_eq!(Some(Error::NetworkError), c.take_result(&mut rt, None).err());
    let e = kdb::KBox::<kdb::KError>::new_error(&mut rt, "length").unwrap().into_raw();
    assert_eq!(Some(Error::QError("length".to_string())), c.take_result(&mut rt, Some(e)).err());
    assert!(!rt.is_live(e));
    let v = kdb::KBox::new_atom(&mut rt, 1i32).into_raw();
    assert_eq!(v, c.take_result(&mut rt, Some(v)).ok().unwrap().as_raw());
    assert_eq!(Ok(()), c.publish_result(Some(v)));
    assert_eq!(Err(Error::NetworkError), c.publish_result(None));
}

#[test]
fn attribute_descriptions() {
    assert_eq!("Attributes( Sorted )", Attr(1).describe());
    assert_eq!("Attributes( Grouped )", Attr(5).describe());
    assert_eq!("Attributes( )", Attr(0).describe());
}

#[test]
fn embedded_call_error_is_a_query_error() {
    let mut rt = Runtime::new();
    let c = Connection::new();
    let e = kdb::KBox::<kdb::KError>::new_error(&mut rt, "type").unwrap().into_raw();
    assert_eq!(Some(Error::QError("type".to_string())), c.take_result(&mut rt, Some(e)).err());
    assert!(!rt.is_live(e));
}

#[test]
fn dates_outside_common_era() {
    assert_eq!(-730119, Date::new(1, 1, 1).0);
    assert_eq!(-730425, Date::new(0, 3, 1).0);
    assert_eq!(-730426, Date::new(0, 2, 29).0);
    assert_eq!(Date::new(2001, 1, 1), Date::new(2000, 13, 1));
    assert_eq!(366, Date::new(2001, 1, 1).0);
    assert_eq!(Date::new(-1, 12, 31).0 + 1, Date::new(0, 1, 1).0);
}

#[test]
fn char_list_as_text() {
    let mut rt = Runtime::new();
    let ok = kdb::KBox::<kdb::List<i8>>::from_slice(&mut rt, &[104, 105]);
    assert_eq!(Ok("hi".to_string()), ok.as_ref().try_as_str(&rt));
    assert_eq!("hi".to_string(), ok.as_ref().as_str_unchecked(&rt));
    let bad = kdb::KBox::<kdb::List<i8>>::from_slice(&mut rt, &[-1, 65]);
    assert_eq!(Err(ConversionError::InvalidString), bad.as_ref().try_as_str(&rt));
}
