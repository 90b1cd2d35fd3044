//! Atoms: stored values that hold one scalar.
use vstd::prelude::*;

use core::marker::PhantomData;

use crate::kbox::{holds, mismatch, KBox};
use crate::k_type::KTypeCode;
use crate::raw::{atom_value, Runtime};
use crate::type_traits::{KObject, KTyped, KValue};

verus! {

/// The view of an atom holding a value of type `V`.
pub struct Atom<V> {
    k: usize,
    _p: PhantomData<V>,
}

impl<V> View for Atom<V> {
    type V = usize;

    closed spec fn view(&self) -> usize {
        self.k
    }
}

impl<V> KObject for Atom<V> {
    fn k_ptr(&self) -> (r: usize) {
        self.k
    }

    fn from_ptr(k: usize) -> (r: Self) {
        Atom { k, _p: PhantomData }
    }
}

impl<V: KValue> KTyped for Atom<V> {
    open spec fn k_type_spec() -> i8 {
        V::code().atom_tag()
    }

    fn k_type() -> (r: KTypeCode) {
        V::type_code().as_atom()
    }
}

impl<V: KValue> KBox<Atom<V>> {
    /// A new atom holding `value`, with one reference: this handle's.
    pub fn new_atom(rt: &mut Runtime, value: V) -> (r: Self)
        requires
            old(rt).wf(),
        ensures
            final(rt).wf(),
            final(rt).added(old(rt), r@),
            holds::<Atom<V>>(final(rt), r@),
            final(rt).cell(r@).refs == 1,
            atom_value(final(rt).cell(r@)) == value.to_scalar(),
            final(rt).cells() == old(rt).cells().push(Some(crate::raw::atom_cell(value.to_scalar()))),
    {
        let k = rt.ka(value.into_scalar());
        KBox::from_index(k)
    }
}

impl<V: KValue> Atom<V> {
    /// A copy of the value the atom holds.
    pub fn value(&self, rt: &Runtime) -> (r: V)
        requires
            rt.wf(),
            holds::<Atom<V>>(rt, self@),
        ensures
            r.to_scalar() == atom_value(rt.cell(self@)),
    {
        proof {
            assert(crate::raw::cell_ok(rt.cell(self@)));
            crate::k_type::lemma_atom_tag_negates_list_tag(V::code());
            crate::k_type::lemma_atom_tag_negates_list_tag(atom_value(rt.cell(self@)).kind_spec());
        }
        V::from_scalar(rt.atom(self.k))
    }

    /// Replaces the value the atom holds.
    pub fn set_value(&self, rt: &mut Runtime, value: V)
        requires
            old(rt).wf(),
            holds::<Atom<V>>(old(rt), self@),
        ensures
            final(rt).wf(),
            holds::<Atom<V>>(final(rt), self@),
            atom_value(final(rt).cell(self@)) == value.to_scalar(),
            final(rt).cell(self@).refs == old(rt).cell(self@).refs,
            forall|j: int| 0 <= j < old(rt).cells().len() && j != self@ ==> #[trigger] final(rt).cells()[j] == old(rt).cells()[j],
            final(rt).cells().len() == old(rt).cells().len(),
            final(rt).symbols() == old(rt).symbols(),
    {
        proof {
            crate::k_type::lemma_atom_tag_negates_list_tag(V::code());
        }
        rt.set_atom(self.k, value.into_scalar());
    }
}

/// Round trip: an atom made from `v`, erased to `Any` (same index), passes the downcast to
/// `Atom<V>`, and its value reads back as `v`.
pub proof fn lemma_atom_round_trip<V: KValue>(rt: &Runtime, k: usize, v: V)
    requires
        rt.live(k),
        rt.cell(k) == crate::raw::atom_cell(v.to_scalar()),
    ensures
        holds::<Atom<V>>(rt, k),
        rt.tag_of(k) == <Atom<V> as KTyped>::k_type_spec(),
        forall|w: V| w.to_scalar() == atom_value(rt.cell(k)) ==> w == v,
{
    V::lemma_to_scalar(v, v);
    assert forall|w: V| w.to_scalar() == atom_value(rt.cell(k)) implies w == v by {
        V::lemma_to_scalar(w, v);
    }
}

/// Cast rejection: an atom of kind `A` fails the downcast to an atom of another kind `B`,
/// and the error names the atom's tag and the tag that `B` needs.
pub proof fn lemma_atom_cast_rejected<A: KValue, B: KValue>(rt: &Runtime, k: usize)
    requires
        holds::<Atom<A>>(rt, k),
        A::code() != B::code(),
    ensures
        rt.tag_of(k) != <Atom<B> as KTyped>::k_type_spec(),
        mismatch(rt.tag_of(k), <Atom<B> as KTyped>::k_type_spec()) == mismatch(
            A::code().atom_tag(),
            B::code().atom_tag(),
        ),
{
}

} // verus!
