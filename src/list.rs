//! Lists: of one scalar kind (`List<V>`), or of values of any type (`KMixedList`).
//!
//! Appending may move a list to a fresh slot, as a reallocation would. Only owned handles
//! can append, and each append points the handle at the list's new index.
use vstd::prelude::*;
use vstd::utf8::{encode_utf8, valid_utf8};

use core::marker::PhantomData;

use crate::k_type::{KTypeCode, MIXED_LIST};
use crate::kbox::{holds, Any, KBox, Unowned};
use crate::raw::{children, list_items, Runtime, Scalar};
use crate::error::ConversionError;
use crate::symbol::{symbol, valid_symbol_text, Symbol};
use crate::type_traits::{KObject, KTyped, KValue};

verus! {

/// The view of a list whose elements are values of type `V`.
pub struct List<V> {
    k: usize,
    _p: PhantomData<V>,
}

/// The view of a mixed list: each element is a stored value of any type, which the list
/// holds one reference to.
pub struct KMixedList {
    k: usize,
}

impl<V> View for List<V> {
    type V = usize;

    closed spec fn view(&self) -> usize {
        self.k
    }
}

impl<V> KObject for List<V> {
    fn k_ptr(&self) -> (r: usize) {
        self.k
    }

    fn from_ptr(k: usize) -> (r: Self) {
        List { k, _p: PhantomData }
    }
}

impl View for KMixedList {
    type V = usize;

    closed spec fn view(&self) -> usize {
        self.k
    }
}

impl KObject for KMixedList {
    fn k_ptr(&self) -> (r: usize) {
        self.k
    }

    fn from_ptr(k: usize) -> (r: Self) {
        KMixedList { k }
    }
}

impl<V: KValue> KTyped for List<V> {
    open spec fn k_type_spec() -> i8 {
        V::code().list_tag()
    }

    fn k_type() -> (r: KTypeCode) {
        V::type_code().as_list()
    }
}

impl KTyped for KMixedList {
    open spec fn k_type_spec() -> i8 {
        MIXED_LIST
    }

    fn k_type() -> (r: KTypeCode) {
        KTypeCode(MIXED_LIST)
    }
}

/// The stored forms of a sequence of native values.
pub open spec fn scalars_of<V: KValue>(s: Seq<V>) -> Seq<Scalar> {
    s.map_values(|v: V| v.to_scalar())
}

/// The list of one scalar kind at `k` holds the stored forms of `vals`, in order.
pub open spec fn list_holds<V: KValue>(rt: &Runtime, k: usize, vals: Seq<V>) -> bool {
    &&& holds::<List<V>>(rt, k)
    &&& list_items(rt.cell(k)) == scalars_of(vals)
}

impl<V: KValue> KBox<List<V>> {
    /// A new empty list, with one reference: this handle's.
    pub fn new_list(rt: &mut Runtime) -> (r: Self)
        requires
            old(rt).wf(),
        ensures
            final(rt).wf(),
            final(rt).added(old(rt), r@),
            list_holds::<V>(final(rt), r@, Seq::empty()),
            final(rt).cell(r@).refs == 1,
    {
        let k = rt.ktn(V::type_code().as_list(), 0);
        proof {
            assert(scalars_of(Seq::<V>::empty()) =~= Seq::<Scalar>::empty());
        }
        KBox::from_index(k)
    }

    /// A new list holding `items` in order. Its buffer is allocated once, at the size of
    /// `items`, and filled in place.
    pub fn from_slice(rt: &mut Runtime, items: &[V]) -> (r: Self)
        requires
            old(rt).wf(),
        ensures
            final(rt).wf(),
            final(rt).added(old(rt), r@),
            list_holds::<V>(final(rt), r@, items@),
            final(rt).cell(r@).refs == 1,
    {
        let k = rt.ktn(V::type_code().as_list(), items.len());
        let ghost start = *rt;
        let mut i: usize = 0;
        while i < items.len()
            invariant
                rt.wf(),
                start.added(old(rt), k),
                i <= items@.len(),
                rt.cells().len() == start.cells().len(),
                rt.cells().drop_last() == old(rt).cells(),
                rt.symbols() == old(rt).symbols(),
                rt.live(k),
                rt.tag_of(k) == V::code().list_tag(),
                rt.cell(k).refs == 1,
                rt.cell(k).cap == items@.len(),
                list_items(rt.cell(k)) == scalars_of(items@.subrange(0, i as int)),
            decreases items@.len() - i,
        {
            let ghost before = *rt;
            let s = items[i].into_scalar();
            let k2 = rt.ja(k, s);
            proof {
                assert(k2 == k);
                assert(scalars_of(items@.subrange(0, i + 1)) =~= scalars_of(items@.subrange(0, i as int)).push(s));
                assert(rt.cells().drop_last() =~= old(rt).cells());
            }
            i = i + 1;
        }
        proof {
            assert(items@.subrange(0, items@.len() as int) =~= items@);
        }
        KBox::from_index(k)
    }

    /// Appends an element. The list may move; the handle follows it.
    pub fn push(&mut self, rt: &mut Runtime, item: V)
        requires
            old(rt).wf(),
            holds::<List<V>>(old(rt), old(self)@),
        ensures
            final(rt).wf(),
            holds::<List<V>>(final(rt), final(self)@),
            list_items(final(rt).cell(final(self)@)) == list_items(old(rt).cell(old(self)@)).push(
                item.to_scalar(),
            ),
            final(rt).cell(final(self)@).refs == old(rt).cell(old(self)@).refs,
            final(rt).relocated(old(rt), old(self)@, final(self)@),
            final(rt).unchanged_except(old(rt), old(self)@),
    {
        let s = item.into_scalar();
        let k = rt.ja(self.as_raw(), s);
        self.set_index(k);
    }

    /// Appends the elements of `other`, in order, and gives up `other`'s reference without
    /// releasing anything twice. The list may move; the handle follows it.
    pub fn join(&mut self, rt: &mut Runtime, other: KBox<List<V>>)
        requires
            old(rt).wf(),
            holds::<List<V>>(old(rt), old(self)@),
            holds::<List<V>>(old(rt), other@),
            old(self)@ != other@,
        ensures
            final(rt).wf(),
            holds::<List<V>>(final(rt), final(self)@),
            list_items(final(rt).cell(final(self)@)) == list_items(old(rt).cell(old(self)@))
                + list_items(old(rt).cell(other@)),
            final(rt).cell(final(self)@).refs == old(rt).cell(old(self)@).refs,
            final(rt).moved(old(rt), old(self)@, final(self)@),
            forall|j: int|
                0 <= j < old(rt).cells().len() && j != old(self)@ && j != other@
                    ==> #[trigger] final(rt).cells()[j] == old(rt).cells()[j],
            old(rt).cell(other@).refs == 1 ==> final(rt).cells()[other@ as int] is None,
            old(rt).cell(other@).refs > 1 ==> final(rt).cells()[other@ as int] == Some(
                crate::raw::with_refs(old(rt).cell(other@), (old(rt).cell(other@).refs - 1) as u32),
            ),
    {
        proof {
            crate::k_type::lemma_atom_tag_negates_list_tag(V::code());
        }
        let k = rt.jv(self.as_raw(), other.into_raw());
        self.set_index(k);
    }

    /// Appends `items` one at a time, in order. The list may move; the handle follows it.
    pub fn extend(&mut self, rt: &mut Runtime, items: &[V])
        requires
            old(rt).wf(),
            holds::<List<V>>(old(rt), old(self)@),
        ensures
            final(rt).wf(),
            holds::<List<V>>(final(rt), final(self)@),
            list_items(final(rt).cell(final(self)@)) == list_items(old(rt).cell(old(self)@)) + scalars_of(
                items@,
            ),
            final(rt).cell(final(self)@).refs == old(rt).cell(old(self)@).refs,
            final(rt).moved(old(rt), old(self)@, final(self)@),
            forall|j: int|
                0 <= j < old(rt).cells().len() && j != old(self)@ ==> #[trigger] final(rt).cells()[j]
                    == old(rt).cells()[j],
            final(rt).symbols() == old(rt).symbols(),
    {
        let ghost start = list_items(old(rt).cell(old(self)@));
        let mut i: usize = 0;
        while i < items.len()
            invariant
                rt.wf(),
                i <= items@.len(),
                holds::<List<V>>(rt, self@),
                list_items(rt.cell(self@)) == start + scalars_of(items@.subrange(0, i as int)),
                rt.cell(self@).refs == old(rt).cell(old(self)@).refs,
                rt.moved(old(rt), old(self)@, self@),
                old(rt).live(old(self)@),
                forall|j: int|
                    0 <= j < old(rt).cells().len() && j != old(self)@ ==> #[trigger] rt.cells()[j]
                        == old(rt).cells()[j],
                rt.symbols() == old(rt).symbols(),
            decreases items@.len() - i,
        {
            let ghost before = *rt;
            let ghost at = self@;
            self.push(rt, items[i]);
            proof {
                crate::raw::lemma_moved_step(old(rt), &before, rt, old(self)@, at, self@);
                assert(scalars_of(items@.subrange(0, i + 1)) =~= scalars_of(items@.subrange(0, i as int)).push(
                    items@[i as int].to_scalar(),
                ));
                assert(start + scalars_of(items@.subrange(0, i + 1)) =~= (start + scalars_of(
                    items@.subrange(0, i as int),
                )).push(items@[i as int].to_scalar()));
                assert forall|j: int|
                    0 <= j < old(rt).cells().len() && j != old(self)@ implies #[trigger] rt.cells()[j]
                        == old(rt).cells()[j] by {
                    assert(before.cells()[j] == old(rt).cells()[j]);
                    assert(j != at);
                }
            }
            i = i + 1;
        }
        proof {
            assert(items@.subrange(0, items@.len() as int) =~= items@);
        }
    }
}

impl<V: KValue> List<V> {
    /// The number of elements.
    pub fn len(&self, rt: &Runtime) -> (r: usize)
        requires
            rt.wf(),
            holds::<List<V>>(rt, self@),
        ensures
            r == list_items(rt.cell(self@)).len(),
    {
        proof {
            assert(crate::raw::cell_ok(rt.cell(self@)));
        }
        rt.count(self.k)
    }

    /// Whether the list has no elements.
    pub fn is_empty(&self, rt: &Runtime) -> (r: bool)
        requires
            rt.wf(),
            holds::<List<V>>(rt, self@),
        ensures
            r == (list_items(rt.cell(self@)).len() == 0),
    {
        self.len(rt) == 0
    }

    /// The element at position `i`, if there is one.
    pub fn get(&self, rt: &Runtime, i: usize) -> (r: Option<V>)
        requires
            rt.wf(),
            holds::<List<V>>(rt, self@),
        ensures
            i < list_items(rt.cell(self@)).len() ==> (r matches Some(v) && v.to_scalar()
                == list_items(rt.cell(self@))[i as int]),
            i >= list_items(rt.cell(self@)).len() ==> r is None,
    {
        proof {
            assert(crate::raw::cell_ok(rt.cell(self@)));
        }
        if i < rt.count(self.k) {
            proof {
                assert(crate::raw::cell_ok(rt.cell(self@)));
                assert(list_items(rt.cell(self@))[i as int].kind_spec().list_tag() == V::code().list_tag());
                crate::k_type::lemma_atom_tag_negates_list_tag(V::code());
                crate::k_type::lemma_atom_tag_negates_list_tag(list_items(rt.cell(self@))[i as int].kind_spec());
            }
            Some(V::from_scalar(rt.item(self.k, i)))
        } else {
            None
        }
    }

    /// Overwrites the element at position `i`, which must exist.
    pub fn set(&self, rt: &mut Runtime, i: usize, value: V)
        requires
            old(rt).wf(),
            holds::<List<V>>(old(rt), self@),
            i < list_items(old(rt).cell(self@)).len(),
        ensures
            final(rt).wf(),
            holds::<List<V>>(final(rt), self@),
            list_items(final(rt).cell(self@)) == list_items(old(rt).cell(self@)).update(
                i as int,
                value.to_scalar(),
            ),
            final(rt).cell(self@).refs == old(rt).cell(self@).refs,
            final(rt).cells().len() == old(rt).cells().len(),
            forall|j: int|
                0 <= j < old(rt).cells().len() && j != self@ ==> #[trigger] final(rt).cells()[j]
                    == old(rt).cells()[j],
            final(rt).symbols() == old(rt).symbols(),
    {
        proof {
            crate::k_type::lemma_atom_tag_negates_list_tag(V::code());
        }
        rt.set_item(self.k, i, value.into_scalar());
    }

    /// A copy of the elements, in order.
    pub fn as_slice(&self, rt: &Runtime) -> (r: Vec<V>)
        requires
            rt.wf(),
            holds::<List<V>>(rt, self@),
        ensures
            scalars_of(r@) == list_items(rt.cell(self@)),
    {
        let n = self.len(rt);
        let mut r: Vec<V> = Vec::new();
        let mut i: usize = 0;
        while i < n
            invariant
                rt.wf(),
                holds::<List<V>>(rt, self@),
                n == list_items(rt.cell(self@)).len(),
                i <= n,
                scalars_of(r@) == list_items(rt.cell(self@)).subrange(0, i as int),
            decreases n - i,
        {
            let v = self.get(rt, i).unwrap();
            let ghost prev = r@;
            r.push(v);
            proof {
                assert(scalars_of(r@) =~= scalars_of(prev).push(v.to_scalar()));
                assert(scalars_of(r@) =~= list_items(rt.cell(self@)).subrange(0, i + 1));
            }
            i = i + 1;
        }
        proof {
            assert(list_items(rt.cell(self@)).subrange(0, n as int) =~= list_items(rt.cell(self@)));
        }
        r
    }
}

impl KBox<List<Symbol>> {
    /// A new symbol list holding the given texts, interned, in order. Every text must be a
    /// valid symbol text.
    pub fn from_strs(rt: &mut Runtime, texts: &[&str]) -> (r: Self)
        requires
            old(rt).wf(),
            forall|i: int| 0 <= i < texts@.len() ==> valid_symbol_text(#[trigger] texts@[i]),
        ensures
            final(rt).wf(),
            holds::<List<Symbol>>(final(rt), r@),
            final(rt).cell(r@).refs == 1,
            list_items(final(rt).cell(r@)).len() == texts@.len(),
            forall|i: int|
                0 <= i < texts@.len() ==> (#[trigger] list_items(final(rt).cell(r@))[i] matches Scalar::Symbol(
                    s,
                ) && s.id() < final(rt).symbols().len() && final(rt).symbols()[s.id() as int]
                    == texts@[i]@),
            final(rt).cells().len() > old(rt).cells().len(),
            r@ >= old(rt).cells().len(),
            forall|j: int| 0 <= j < old(rt).cells().len() ==> #[trigger] final(rt).cells()[j] == old(rt).cells()[j],
    {
        let mut l = KBox::<List<Symbol>>::new_list(rt);
        let k0 = l.as_raw();
        let ghost start = *rt;
        let mut i: usize = 0;
        while i < texts.len()
            invariant
                rt.wf(),
                i <= texts@.len(),
                forall|x: int| 0 <= x < texts@.len() ==> valid_symbol_text(#[trigger] texts@[x]),
                holds::<List<Symbol>>(rt, l@),
                rt.cell(l@).refs == 1,
                list_items(rt.cell(l@)).len() == i,
                forall|x: int|
                    0 <= x < i ==> (#[trigger] list_items(rt.cell(l@))[x] matches Scalar::Symbol(s)
                        && s.id() < rt.symbols().len() && rt.symbols()[s.id() as int] == texts@[x]@),
                rt.moved(&start, k0, l@),
                k0 == old(rt).cells().len(),
                start.cells().len() == old(rt).cells().len() + 1,
                forall|j: int| 0 <= j < old(rt).cells().len() ==> #[trigger] rt.cells()[j] == old(rt).cells()[j],
            decreases texts@.len() - i,
        {
            let ghost before = *rt;
            let ghost at = l@;
            let s = symbol(rt, texts[i]);
            let ghost mid = *rt;
            l.push(rt, s);
            proof {
                assert forall|x: int|
                    0 <= x < i + 1 implies (#[trigger] list_items(rt.cell(l@))[x] matches Scalar::Symbol(s2)
                        && s2.id() < rt.symbols().len() && rt.symbols()[s2.id() as int] == texts@[x]@) by {
                    if x < i {
                        assert(list_items(rt.cell(l@))[x] == list_items(before.cell(at))[x]);
                        assert(before.symbols().len() <= rt.symbols().len());
                        assert(mid.symbols().subrange(0, before.symbols().len() as int) =~= before.symbols());
                        match list_items(before.cell(at))[x] {
                            Scalar::Symbol(s3) => {
                                assert(rt.symbols()[s3.id() as int] == before.symbols()[s3.id() as int]);
                            },
                            _ => {},
                        }
                    }
                }
                crate::raw::lemma_moved_step(&start, &mid, rt, k0, at, l@);
                assert forall|j: int| 0 <= j < old(rt).cells().len() implies #[trigger] rt.cells()[j] == old(rt).cells()[j] by {
                    assert(mid.cells()[j] == before.cells()[j]);
                }
            }
            i = i + 1;
        }
        l
    }
}

/// The bytes of a list of chars.
pub open spec fn char_bytes(items: Seq<Scalar>) -> Seq<u8> {
    items.map_values(
        |s: Scalar|
            match s {
                Scalar::Char(c) => c as u8,
                _ => 0u8,
            },
    )
}

/// Relies on std's `String::from_utf8`: it succeeds exactly when the bytes are valid UTF-8,
/// and the string it returns holds those bytes.
#[verifier::external_body]
fn string_from_utf8(v: Vec<u8>) -> (r: Option<String>)
    ensures
        r is Some <==> valid_utf8(v@),
        r matches Some(s) ==> encode_utf8(s@) == v@,
{
    String::from_utf8(v).ok()
}

impl List<i8> {
    /// A copy of the list's bytes.
    fn bytes(&self, rt: &Runtime) -> (r: Vec<u8>)
        requires
            rt.wf(),
            holds::<List<i8>>(rt, self@),
        ensures
            r@ == char_bytes(list_items(rt.cell(self@))),
    {
        let n = self.len(rt);
        let mut r: Vec<u8> = Vec::new();
        let mut i: usize = 0;
        while i < n
            invariant
                rt.wf(),
                holds::<List<i8>>(rt, self@),
                n == list_items(rt.cell(self@)).len(),
                i <= n,
                r@ == char_bytes(list_items(rt.cell(self@)).subrange(0, i as int)),
            decreases n - i,
        {
            let c = self.get(rt, i).unwrap();
            let ghost prev = r@;
            r.push(c as u8);
            proof {
                assert(char_bytes(list_items(rt.cell(self@)).subrange(0, i + 1)) =~= prev.push(c as u8));
            }
            i = i + 1;
        }
        proof {
            assert(list_items(rt.cell(self@)).subrange(0, n as int) =~= list_items(rt.cell(self@)));
        }
        r
    }

    /// The list's bytes as a string, when they are valid UTF-8.
    pub fn try_as_str(&self, rt: &Runtime) -> (r: Result<String, ConversionError>)
        requires
            rt.wf(),
            holds::<List<i8>>(rt, self@),
        ensures
            valid_utf8(char_bytes(list_items(rt.cell(self@)))) ==> (r matches Ok(s) && encode_utf8(s@)
                == char_bytes(list_items(rt.cell(self@)))),
            !valid_utf8(char_bytes(list_items(rt.cell(self@)))) ==> r == Err::<String, ConversionError>(
                ConversionError::InvalidString,
            ),
    {
        match string_from_utf8(self.bytes(rt)) {
            Some(s) => Ok(s),
            None => Err(ConversionError::InvalidString),
        }
    }

    /// The list's bytes as a string; they must be valid UTF-8.
    pub fn as_str_unchecked(&self, rt: &Runtime) -> (r: String)
        requires
            rt.wf(),
            holds::<List<i8>>(rt, self@),
            valid_utf8(char_bytes(list_items(rt.cell(self@)))),
        ensures
            encode_utf8(r@) == char_bytes(list_items(rt.cell(self@))),
    {
        string_from_utf8(self.bytes(rt)).unwrap()
    }
}

/// The mixed list at `k` holds references to the values at `ks`, in order.
pub open spec fn mixed_holds(rt: &Runtime, k: usize, ks: Seq<usize>) -> bool {
    &&& holds::<KMixedList>(rt, k)
    &&& children(rt.cell(k)) == ks
}

/// The indices of a sequence of borrowed handles.
pub open spec fn indices(s: Seq<Unowned<Any>>) -> Seq<usize> {
    s.map_values(|u: Unowned<Any>| u@)
}

impl KBox<KMixedList> {
    /// A new empty mixed list, with one reference: this handle's.
    pub fn new_list(rt: &mut Runtime) -> (r: Self)
        requires
            old(rt).wf(),
        ensures
            final(rt).wf(),
            final(rt).added(old(rt), r@),
            mixed_holds(final(rt), r@, Seq::empty()),
            final(rt).cell(r@).refs == 1,
    {
        let k = rt.ktn(KTypeCode(MIXED_LIST), 0);
        KBox::from_index(k)
    }

    /// A new mixed list holding `items` in order; it takes over their references. Its
    /// buffer is allocated once, at the number of items, and filled in place.
    pub fn from_vec(rt: &mut Runtime, items: Vec<KBox<Any>>) -> (r: Self)
        requires
            old(rt).wf(),
        ensures
            final(rt).wf(),
            final(rt).added(old(rt), r@),
            mixed_holds(final(rt), r@, items@.map_values(|b: KBox<Any>| b@)),
            final(rt).cell(r@).refs == 1,
    {
        let ghost ks = items@.map_values(|b: KBox<Any>| b@);
        let n = items.len();
        let k = rt.ktn(KTypeCode(MIXED_LIST), n);
        let mut items = items;
        let mut i: usize = 0;
        while i < n
            invariant
                rt.wf(),
                n == ks.len(),
                i <= n,
                items@.len() == n - i,
                forall|x: int| 0 <= x < items@.len() ==> #[trigger] items@[x]@ == ks[(n - items@.len()) + x],
                rt.cells().len() == old(rt).cells().len() + 1,
                rt.cells().drop_last() == old(rt).cells(),
                rt.symbols() == old(rt).symbols(),
                k == old(rt).cells().len(),
                rt.live(k),
                rt.tag_of(k) == MIXED_LIST,
                rt.cell(k).refs == 1,
                rt.cell(k).cap == n,
                children(rt.cell(k)) == ks.subrange(0, i as int),
            decreases n - i,
        {
            let b = items.remove(0);
            let e = b.into_raw();
            let ghost before = *rt;
            let k2 = rt.jk(k, e);
            proof {
                assert(k2 == k);
                assert(e == ks[i as int]);
                assert(ks.subrange(0, i + 1) =~= ks.subrange(0, i as int).push(e));
                assert(rt.cells().drop_last() =~= old(rt).cells());
            }
            i = i + 1;
        }
        proof {
            assert(ks.subrange(0, n as int) =~= ks);
        }
        KBox::from_index(k)
    }

    /// Appends a value. The list takes over the item's reference: the item is moved into
    /// the list, not shared with it. The list may move; the handle follows it.
    pub fn push(&mut self, rt: &mut Runtime, item: KBox<Any>)
        requires
            old(rt).wf(),
            holds::<KMixedList>(old(rt), old(self)@),
        ensures
            final(rt).wf(),
            mixed_holds(final(rt), final(self)@, children(old(rt).cell(old(self)@)).push(item@)),
            final(rt).cell(final(self)@).refs == old(rt).cell(old(self)@).refs,
            final(rt).relocated(old(rt), old(self)@, final(self)@),
            final(rt).unchanged_except(old(rt), old(self)@),
    {
        let k = rt.jk(self.as_raw(), item.into_raw());
        self.set_index(k);
    }

    /// Appends the elements of `other`, in order, and gives up `other`'s reference. When
    /// that was the only reference, the elements move over with their counts unchanged and
    /// the shell is freed, so nothing is released twice; else `other` keeps its elements and
    /// each element gains one reference per time it is held.
    pub fn join(&mut self, rt: &mut Runtime, other: KBox<KMixedList>)
        requires
            old(rt).wf(),
            holds::<KMixedList>(old(rt), old(self)@),
            holds::<KMixedList>(old(rt), other@),
            old(self)@ != other@,
        ensures
            final(rt).wf(),
            mixed_holds(
                final(rt),
                final(self)@,
                children(old(rt).cell(old(self)@)) + children(old(rt).cell(other@)),
            ),
            final(rt).moved(old(rt), old(self)@, final(self)@),
            final(rt).shapes_kept(old(rt), old(self)@),
            old(rt).cell(other@).refs == 1 ==> final(rt).cells()[other@ as int] is None,
            crate::raw::handed_over(final(rt).cells(), old(rt), old(self)@, other@),
    {
        let k = rt.jv(self.as_raw(), other.into_raw());
        self.set_index(k);
    }
}

impl KMixedList {
    /// The number of elements.
    pub fn len(&self, rt: &Runtime) -> (r: usize)
        requires
            rt.wf(),
            holds::<KMixedList>(rt, self@),
        ensures
            r == children(rt.cell(self@)).len(),
    {
        proof {
            assert(crate::raw::cell_ok(rt.cell(self@)));
        }
        rt.count(self.k)
    }

    /// Whether the list has no elements.
    pub fn is_empty(&self, rt: &Runtime) -> (r: bool)
        requires
            rt.wf(),
            holds::<KMixedList>(rt, self@),
        ensures
            r == (children(rt.cell(self@)).len() == 0),
    {
        self.len(rt) == 0
    }

    /// A borrowed handle to the element at position `i`, if there is one.
    pub fn get(&self, rt: &Runtime, i: usize) -> (r: Option<Unowned<Any>>)
        requires
            rt.wf(),
            holds::<KMixedList>(rt, self@),
        ensures
            i < children(rt.cell(self@)).len() ==> (r matches Some(u) && u@ == children(
                rt.cell(self@),
            )[i as int]),
            i >= children(rt.cell(self@)).len() ==> r is None,
    {
        if i < self.len(rt) {
            Some(Unowned::new(Any::from_ptr(rt.child(self.k, i))))
        } else {
            None
        }
    }

    /// Borrowed handles to the elements, in order.
    pub fn as_slice(&self, rt: &Runtime) -> (r: Vec<Unowned<Any>>)
        requires
            rt.wf(),
            holds::<KMixedList>(rt, self@),
        ensures
            indices(r@) == children(rt.cell(self@)),
    {
        let n = self.len(rt);
        let mut r: Vec<Unowned<Any>> = Vec::new();
        let mut i: usize = 0;
        while i < n
            invariant
                rt.wf(),
                holds::<KMixedList>(rt, self@),
                n == children(rt.cell(self@)).len(),
                i <= n,
                indices(r@) == children(rt.cell(self@)).subrange(0, i as int),
            decreases n - i,
        {
            let u = Unowned::new(Any::from_ptr(rt.child(self.k, i)));
            let ghost prev = r@;
            r.push(u);
            proof {
                assert(indices(r@) =~= indices(prev).push(u@));
                assert(indices(r@) =~= children(rt.cell(self@)).subrange(0, i + 1));
            }
            i = i + 1;
        }
        proof {
            assert(children(rt.cell(self@)).subrange(0, n as int) =~= children(rt.cell(self@)));
        }
        r
    }
}

} // verus!
