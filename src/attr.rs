//! The attribute byte of a stored value.
use vstd::prelude::*;

use crate::kbox::KBox;
use crate::raw::Runtime;
use crate::type_traits::KObject;

verus! {

/// The attribute byte: which ordering or grouping property a list is known to have.
#[derive(Clone, Copy, Debug, PartialEq, Eq, Structural)]
pub struct Attr(pub u8);

impl Attr {
    /// The list is sorted.
    pub fn sorted(self) -> (r: bool)
        ensures
            r == (self.0 == 1),
    {
        self.0 == 1
    }

    /// The list's elements are unique.
    pub fn unique(self) -> (r: bool)
        ensures
            r == (self.0 == 2),
    {
        self.0 == 2
    }

    /// The list is partitioned.
    pub fn partioned(self) -> (r: bool)
        ensures
            r == (self.0 == 3),
    {
        self.0 == 3
    }

    /// A text naming the attribute that is set, if any.
    pub fn describe(self) -> (r: &'static str)
        ensures
            self.0 == 1 ==> r@ == "Attributes( Sorted )"@,
            self.0 == 2 ==> r@ == "Attributes( Unique )"@,
            self.0 == 3 ==> r@ == "Attributes( Partioned )"@,
            self.0 == 5 ==> r@ == "Attributes( Grouped )"@,
            !(self.0 == 1 || self.0 == 2 || self.0 == 3 || self.0 == 5) ==> r@ == "Attributes( )"@,
    {
        if self.sorted() {
            "Attributes( Sorted )"
        } else if self.unique() {
            "Attributes( Unique )"
        } else if self.partioned() {
            "Attributes( Partioned )"
        } else if self.grouped() {
            "Attributes( Grouped )"
        } else {
            "Attributes( )"
        }
    }

    /// The list is grouped.
    pub fn grouped(self) -> (r: bool)
        ensures
            r == (self.0 == 5),
    {
        self.0 == 5
    }
}

impl<T: KObject> KBox<T> {
    /// The attribute byte of the value.
    pub fn attributes(&self, rt: &Runtime) -> (r: Attr)
        requires
            rt.live(self@),
        ensures
            r.0 == rt.cell(self@).attr,
    {
        Attr(rt.attr(self.as_raw()))
    }
}

} // verus!
