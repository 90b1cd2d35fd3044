//! Handles: an owned handle holds one reference to a stored value; a borrowed one holds none.
//! Each wraps a view of the value.
use vstd::prelude::*;

use crate::error::ConversionError;
use crate::k_type::KTypeCode;
use crate::raw::Runtime;
use crate::type_traits::{KObject, KTyped};

verus! {

/// The dynamic view: any stored value, whatever its tag.
pub struct Any {
    k: usize,
}

impl View for Any {
    type V = usize;

    closed spec fn view(&self) -> usize {
        self.k
    }
}

impl KObject for Any {
    fn k_ptr(&self) -> (r: usize) {
        self.k
    }

    fn from_ptr(k: usize) -> (r: Self) {
        Any { k }
    }
}

/// An owned handle. It holds one reference to the value its view addresses, which
/// `release` gives up. It is neither `Copy` nor `Clone`, so a reference is given up at
/// most once.
pub struct KBox<T: KObject> {
    t: T,
}

/// A borrowed handle, for a value whose reference belongs to someone else (a callback's
/// parameter, an element of a list). It never gives up a reference.
pub struct Unowned<T: KObject> {
    t: T,
}

impl<T: KObject> View for KBox<T> {
    type V = usize;

    closed spec fn view(&self) -> usize {
        self.t@
    }
}

impl<T: KObject> View for Unowned<T> {
    type V = usize;

    closed spec fn view(&self) -> usize {
        self.t@
    }
}

/// Whether the store holds, at index `k`, a value that the view `T` accepts.
pub open spec fn holds<T: KTyped>(rt: &Runtime, k: usize) -> bool {
    rt.live(k) && rt.tag_of(k) == T::k_type_spec()
}

/// The error of a downcast that found tag `found` where the view needs `expected`.
pub open spec fn mismatch(found: i8, expected: i8) -> ConversionError {
    ConversionError::InvalidKCast { from: KTypeCode(found), to: KTypeCode(expected) }
}

impl<T: KObject> KBox<T> {
    /// Wraps an index whose reference the caller hands over.
    pub(crate) fn from_index(k: usize) -> (r: Self)
        ensures
            r@ == k,
    {
        KBox { t: T::from_ptr(k) }
    }

    /// Points the handle at the index where its value now is, after the value moved.
    pub(crate) fn set_index(&mut self, k: usize)
        ensures
            final(self)@ == k,
    {
        self.t = T::from_ptr(k);
    }

    /// The view of the value.
    pub fn as_ref(&self) -> (r: &T)
        ensures
            r@ == self@,
    {
        &self.t
    }

    /// The index of the value.
    pub fn as_raw(&self) -> (r: usize)
        ensures
            r == self@,
    {
        self.t.k_ptr()
    }

    /// Gives up the handle without giving up its reference, which the caller now holds.
    pub fn into_raw(self) -> (r: usize)
        ensures
            r == self@,
    {
        self.t.k_ptr()
    }

    /// A borrowed handle to the same value.
    pub fn borrow(&self) -> (r: Unowned<T>)
        ensures
            r@ == self@,
    {
        Unowned { t: T::from_ptr(self.t.k_ptr()) }
    }

    /// Gives up the handle's reference.
    pub fn release(self, rt: &mut Runtime)
        requires
            old(rt).wf(),
            self@ < old(rt).cells().len(),
        ensures
            final(rt).wf(),
            final(rt).released(old(rt), self@),
    {
        rt.r0(self.t.k_ptr());
    }

    /// Takes one more reference to a value seen through a view, in a new owned handle.
    pub fn from_shared(rt: &mut Runtime, t: &T) -> (r: Self)
        requires
            old(rt).wf(),
            old(rt).live(t@),
        ensures
            final(rt).wf(),
            r@ == t@,
            final(rt).cells() == old(rt).cells().update(
                t@ as int,
                Some(
                    crate::raw::with_refs(
                        old(rt).cell(t@),
                        if old(rt).cell(t@).refs < u32::MAX {
                            (old(rt).cell(t@).refs + 1) as u32
                        } else {
                            old(rt).cell(t@).refs
                        },
                    ),
                ),
            ),
            final(rt).symbols() == old(rt).symbols(),
    {
        let k = rt.r1(t.k_ptr());
        KBox { t: T::from_ptr(k) }
    }
}

impl<T: KObject + KTyped> KBox<T> {
    /// Erases the static type: the same value, seen through the dynamic view.
    pub fn into_any(self) -> (r: KBox<Any>)
        ensures
            r@ == self@,
    {
        KBox { t: Any { k: self.t.k_ptr() } }
    }
}

impl KBox<Any> {
    /// Takes over a reference that the caller holds to the value at index `k`.
    pub fn from_raw(k: usize) -> (r: KBox<Any>)
        ensures
            r@ == k,
    {
        KBox { t: Any { k } }
    }

    /// The tag of the value.
    pub fn k_type(&self, rt: &Runtime) -> (r: KTypeCode)
        requires
            rt.live(self@),
        ensures
            r.0 == rt.tag_of(self@),
    {
        rt.tag(self.t.k)
    }

    /// Recovers a typed view when the value's tag is the one the view needs. Else the
    /// handle's reference is given up and the error names both tags.
    pub fn try_cast<T: KObject + KTyped>(self, rt: &mut Runtime) -> (r: Result<KBox<T>, ConversionError>)
        requires
            old(rt).wf(),
            old(rt).live(self@),
        ensures
            final(rt).wf(),
            r is Ok <==> old(rt).tag_of(self@) == T::k_type_spec(),
            r matches Ok(b) ==> b@ == self@ && *final(rt) == *old(rt),
            r matches Err(e) ==> e == mismatch(old(rt).tag_of(self@), T::k_type_spec())
                && final(rt).released(old(rt), self@),
    {
        let found = rt.tag(self.t.k);
        let expected = T::k_type();
        if found.0 == expected.0 {
            Ok(KBox { t: T::from_ptr(self.t.k) })
        } else {
            rt.r0(self.t.k);
            Err(ConversionError::InvalidKCast { from: found, to: expected })
        }
    }
}

impl<T: KObject> Unowned<T> {
    /// Borrows the value a view addresses, whose reference belongs to someone else.
    pub fn new(t: T) -> (r: Self)
        ensures
            r@ == t@,
    {
        Unowned { t }
    }

    /// The view of the value.
    pub fn as_ref(&self) -> (r: &T)
        ensures
            r@ == self@,
    {
        &self.t
    }

    /// The index of the value.
    pub fn as_raw(&self) -> (r: usize)
        ensures
            r == self@,
    {
        self.t.k_ptr()
    }

    /// Takes a reference of one's own to the borrowed value.
    pub fn into_owned(self, rt: &mut Runtime) -> (r: KBox<T>)
        requires
            old(rt).wf(),
            old(rt).live(self@),
        ensures
            final(rt).wf(),
            r@ == self@,
            final(rt).live(r@),
            final(rt).cell(r@).refs == if old(rt).cell(self@).refs < u32::MAX {
                (old(rt).cell(self@).refs + 1) as u32
            } else {
                old(rt).cell(self@).refs
            },
            final(rt).cells() == old(rt).cells().update(
                self@ as int,
                Some(crate::raw::with_refs(old(rt).cell(self@), final(rt).cell(r@).refs)),
            ),
            final(rt).symbols() == old(rt).symbols(),
    {
        KBox::from_shared(rt, &self.t)
    }
}

impl<T: KObject + KTyped> Unowned<T> {
    /// Erases the static type of a borrowed handle.
    pub fn into_any(self) -> (r: Unowned<Any>)
        ensures
            r@ == self@,
    {
        Unowned { t: Any { k: self.t.k_ptr() } }
    }
}

impl Unowned<Any> {
    /// Borrows the value at index `k`, whose reference belongs to someone else.
    pub fn from_raw(k: usize) -> (r: Unowned<Any>)
        ensures
            r@ == k,
    {
        Unowned { t: Any { k } }
    }

    /// Recovers a typed view of a borrowed value when its tag is the one the view needs.
    pub fn try_cast<T: KObject + KTyped>(self, rt: &Runtime) -> (r: Result<Unowned<T>, ConversionError>)
        requires
            rt.live(self@),
        ensures
            r is Ok <==> rt.tag_of(self@) == T::k_type_spec(),
            r matches Ok(b) ==> b@ == self@,
            r matches Err(e) ==> e == mismatch(rt.tag_of(self@), T::k_type_spec()),
    {
        let found = rt.tag(self.t.k);
        let expected = T::k_type();
        if found.0 == expected.0 {
            Ok(Unowned { t: T::from_ptr(self.t.k) })
        } else {
            Err(ConversionError::InvalidKCast { from: found, to: expected })
        }
    }
}

} // verus!
