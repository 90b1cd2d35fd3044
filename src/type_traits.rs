//! The traits that tie native types to stored kinds and to typed views.
use vstd::prelude::*;

use crate::date_time_types::{Date, Minute, Month, Second, Time, Timespan, Timestamp};
use crate::guid::Guid;
use crate::k_type::{KTypeCode, TypeCode};
use crate::raw::Scalar;
use crate::symbol::Symbol;

verus! {

/// A native type that an atom or a list element of one scalar kind holds.
pub trait KValue: Sized + Copy {
    /// The scalar kind that holds values of this type.
    spec fn code() -> TypeCode;

    /// The stored form of a value.
    spec fn to_scalar(self) -> Scalar;

    /// The stored form of a value is of the type's kind, and tells the value apart.
    proof fn lemma_to_scalar(a: Self, b: Self)
        ensures
            a.to_scalar().kind_spec() == Self::code(),
            a.to_scalar() == b.to_scalar() ==> a == b,
    ;

    /// The scalar kind that holds values of this type.
    fn type_code() -> (r: TypeCode)
        ensures
            r == Self::code(),
    ;

    /// The stored form of a value.
    fn into_scalar(self) -> (r: Scalar)
        ensures
            r == self.to_scalar(),
            r.kind_spec() == Self::code(),
    ;

    /// The value whose stored form is the given scalar, which must be of the type's kind.
    fn from_scalar(s: Scalar) -> (r: Self)
        requires
            s.kind_spec() == Self::code(),
        ensures
            r.to_scalar() == s,
    ;
}

/// A view of a stored value: it addresses the value by its index, which is its view.
pub trait KObject: View<V = usize> + Sized {
    /// The index of the value.
    fn k_ptr(&self) -> (r: usize)
        ensures
            r == self@,
    ;

    /// A view of the value at an index.
    fn from_ptr(k: usize) -> (r: Self)
        ensures
            r@ == k,
    ;
}

/// A typed view: the tag that a stored value must carry to be seen through it.
pub trait KTyped {
    /// The tag of the values this view accepts.
    spec fn k_type_spec() -> i8;

    /// The tag of the values this view accepts.
    fn k_type() -> (r: KTypeCode)
        ensures
            r.0 == Self::k_type_spec(),
    ;
}

impl KValue for bool {
    open spec fn code() -> TypeCode {
        TypeCode::Boolean
    }

    open spec fn to_scalar(self) -> Scalar {
        Scalar::Boolean(self)
    }

    proof fn lemma_to_scalar(a: Self, b: Self) {
    }

    fn type_code() -> (r: TypeCode) {
        TypeCode::Boolean
    }

    fn into_scalar(self) -> (r: Scalar) {
        Scalar::Boolean(self)
    }

    fn from_scalar(s: Scalar) -> (r: Self) {
        match s {
            Scalar::Boolean(v) => v,
            _ => {
                proof {
                    assert(false);
                }
                false
            }
        }
    }
}

impl KValue for u8 {
    open spec fn code() -> TypeCode {
        TypeCode::Byte
    }

    open spec fn to_scalar(self) -> Scalar {
        Scalar::Byte(self)
    }

    proof fn lemma_to_scalar(a: Self, b: Self) {
    }

    fn type_code() -> (r: TypeCode) {
        TypeCode::Byte
    }

    fn into_scalar(self) -> (r: Scalar) {
        Scalar::Byte(self)
    }

    fn from_scalar(s: Scalar) -> (r: Self) {
        match s {
            Scalar::Byte(v) => v,
            _ => {
                proof {
                    assert(false);
                }
                0
            }
        }
    }
}

impl KValue for i8 {
    open spec fn code() -> TypeCode {
        TypeCode::Char
    }

    open spec fn to_scalar(self) -> Scalar {
        Scalar::Char(self)
    }

    proof fn lemma_to_scalar(a: Self, b: Self) {
    }

    fn type_code() -> (r: TypeCode) {
        TypeCode::Char
    }

    fn into_scalar(self) -> (r: Scalar) {
        Scalar::Char(self)
    }

    fn from_scalar(s: Scalar) -> (r: Self) {
        match s {
            Scalar::Char(v) => v,
            _ => {
                proof {
                    assert(false);
                }
                0
            }
        }
    }
}

impl KValue for i16 {
    open spec fn code() -> TypeCode {
        TypeCode::Short
    }

    open spec fn to_scalar(self) -> Scalar {
        Scalar::Short(self)
    }

    proof fn lemma_to_scalar(a: Self, b: Self) {
    }

    fn type_code() -> (r: TypeCode) {
        TypeCode::Short
    }

    fn into_scalar(self) -> (r: Scalar) {
        Scalar::Short(self)
    }

    fn from_scalar(s: Scalar) -> (r: Self) {
        match s {
            Scalar::Short(v) => v,
            _ => {
                proof {
                    assert(false);
                }
                0
            }
        }
    }
}

impl KValue for i32 {
    open spec fn code() -> TypeCode {
        TypeCode::Int
    }

    open spec fn to_scalar(self) -> Scalar {
        Scalar::Int(self)
    }

    proof fn lemma_to_scalar(a: Self, b: Self) {
    }

    fn type_code() -> (r: TypeCode) {
        TypeCode::Int
    }

    fn into_scalar(self) -> (r: Scalar) {
        Scalar::Int(self)
    }

    fn from_scalar(s: Scalar) -> (r: Self) {
        match s {
            Scalar::Int(v) => v,
            _ => {
                proof {
                    assert(false);
                }
                0
            }
        }
    }
}

impl KValue for i64 {
    open spec fn code() -> TypeCode {
        TypeCode::Long
    }

    open spec fn to_scalar(self) -> Scalar {
        Scalar::Long(self)
    }

    proof fn lemma_to_scalar(a: Self, b: Self) {
    }

    fn type_code() -> (r: TypeCode) {
        TypeCode::Long
    }

    fn into_scalar(self) -> (r: Scalar) {
        Scalar::Long(self)
    }

    fn from_scalar(s: Scalar) -> (r: Self) {
        match s {
            Scalar::Long(v) => v,
            _ => {
                proof {
                    assert(false);
                }
                0
            }
        }
    }
}

impl KValue for Guid {
    open spec fn code() -> TypeCode {
        TypeCode::Guid
    }

    open spec fn to_scalar(self) -> Scalar {
        Scalar::Guid(self)
    }

    proof fn lemma_to_scalar(a: Self, b: Self) {
    }

    fn type_code() -> (r: TypeCode) {
        TypeCode::Guid
    }

    fn into_scalar(self) -> (r: Scalar) {
        Scalar::Guid(self)
    }

    fn from_scalar(s: Scalar) -> (r: Self) {
        match s {
            Scalar::Guid(v) => v,
            _ => {
                proof {
                    assert(false);
                }
                Guid(0)
            }
        }
    }
}

impl KValue for Symbol {
    open spec fn code() -> TypeCode {
        TypeCode::Symbol
    }

    open spec fn to_scalar(self) -> Scalar {
        Scalar::Symbol(self)
    }

    proof fn lemma_to_scalar(a: Self, b: Self) {
    }

    fn type_code() -> (r: TypeCode) {
        TypeCode::Symbol
    }

    fn into_scalar(self) -> (r: Scalar) {
        Scalar::Symbol(self)
    }

    fn from_scalar(s: Scalar) -> (r: Self) {
        match s {
            Scalar::Symbol(v) => v,
            _ => {
                proof {
                    assert(false);
                }
                Symbol(0)
            }
        }
    }
}

impl KValue for Timestamp {
    open spec fn code() -> TypeCode {
        TypeCode::Timestamp
    }

    open spec fn to_scalar(self) -> Scalar {
        Scalar::Timestamp(self)
    }

    proof fn lemma_to_scalar(a: Self, b: Self) {
    }

    fn type_code() -> (r: TypeCode) {
        TypeCode::Timestamp
    }

    fn into_scalar(self) -> (r: Scalar) {
        Scalar::Timestamp(self)
    }

    fn from_scalar(s: Scalar) -> (r: Self) {
        match s {
            Scalar::Timestamp(v) => v,
            _ => {
                proof {
                    assert(false);
                }
                Timestamp(0)
            }
        }
    }
}

impl KValue for Month {
    open spec fn code() -> TypeCode {
        TypeCode::Month
    }

    open spec fn to_scalar(self) -> Scalar {
        Scalar::Month(self)
    }

    proof fn lemma_to_scalar(a: Self, b: Self) {
    }

    fn type_code() -> (r: TypeCode) {
        TypeCode::Month
    }

    fn into_scalar(self) -> (r: Scalar) {
        Scalar::Month(self)
    }

    fn from_scalar(s: Scalar) -> (r: Self) {
        match s {
            Scalar::Month(v) => v,
            _ => {
                proof {
                    assert(false);
                }
                Month(0)
            }
        }
    }
}

impl KValue for Date {
    open spec fn code() -> TypeCode {
        TypeCode::Date
    }

    open spec fn to_scalar(self) -> Scalar {
        Scalar::Date(self)
    }

    proof fn lemma_to_scalar(a: Self, b: Self) {
    }

    fn type_code() -> (r: TypeCode) {
        TypeCode::Date
    }

    fn into_scalar(self) -> (r: Scalar) {
        Scalar::Date(self)
    }

    fn from_scalar(s: Scalar) -> (r: Self) {
        match s {
            Scalar::Date(v) => v,
            _ => {
                proof {
                    assert(false);
                }
                Date(0)
            }
        }
    }
}

impl KValue for Timespan {
    open spec fn code() -> TypeCode {
        TypeCode::Timespan
    }

    open spec fn to_scalar(self) -> Scalar {
        Scalar::Timespan(self)
    }

    proof fn lemma_to_scalar(a: Self, b: Self) {
    }

    fn type_code() -> (r: TypeCode) {
        TypeCode::Timespan
    }

    fn into_scalar(self) -> (r: Scalar) {
        Scalar::Timespan(self)
    }

    fn from_scalar(s: Scalar) -> (r: Self) {
        match s {
            Scalar::Timespan(v) => v,
            _ => {
                proof {
                    assert(false);
                }
                Timespan(0)
            }
        }
    }
}

impl KValue for Minute {
    open spec fn code() -> TypeCode {
        TypeCode::Minute
    }

    open spec fn to_scalar(self) -> Scalar {
        Scalar::Minute(self)
    }

    proof fn lemma_to_scalar(a: Self, b: Self) {
    }

    fn type_code() -> (r: TypeCode) {
        TypeCode::Minute
    }

    fn into_scalar(self) -> (r: Scalar) {
        Scalar::Minute(self)
    }

    fn from_scalar(s: Scalar) -> (r: Self) {
        match s {
            Scalar::Minute(v) => v,
            _ => {
                proof {
                    assert(false);
                }
                Minute(0)
            }
        }
    }
}

impl KValue for Second {
    open spec fn code() -> TypeCode {
        TypeCode::Second
    }

    open spec fn to_scalar(self) -> Scalar {
        Scalar::Second(self)
    }

    proof fn lemma_to_scalar(a: Self, b: Self) {
    }

    fn type_code() -> (r: TypeCode) {
        TypeCode::Second
    }

    fn into_scalar(self) -> (r: Scalar) {
        Scalar::Second(self)
    }

    fn from_scalar(s: Scalar) -> (r: Self) {
        match s {
            Scalar::Second(v) => v,
            _ => {
                proof {
                    assert(false);
                }
                Second(0)
            }
        }
    }
}

impl KValue for Time {
    open spec fn code() -> TypeCode {
        TypeCode::Time
    }

    open spec fn to_scalar(self) -> Scalar {
        Scalar::Time(self)
    }

    proof fn lemma_to_scalar(a: Self, b: Self) {
    }

    fn type_code() -> (r: TypeCode) {
        TypeCode::Time
    }

    fn into_scalar(self) -> (r: Scalar) {
        Scalar::Time(self)
    }

    fn from_scalar(s: Scalar) -> (r: Self) {
        match s {
            Scalar::Time(v) => v,
            _ => {
                proof {
                    assert(false);
                }
                Time(0)
            }
        }
    }
}

} // verus!
