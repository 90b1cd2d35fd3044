//! Dictionaries: a key list and a value list of equal length, in insertion order.
use vstd::prelude::*;

use crate::k_type::{is_atom_tag, KTypeCode, DICT, MIXED_LIST};
use crate::kbox::{holds, Any, KBox, Unowned};
use crate::list::{indices, KMixedList};
use crate::raw::{atom_value, children, Runtime};
use crate::type_traits::{KObject, KTyped};

verus! {

/// The view of a dictionary. Keys may repeat; a lookup finds the first match.
pub struct Dictionary {
    k: usize,
}

impl View for Dictionary {
    type V = usize;

    closed spec fn view(&self) -> usize {
        self.k
    }
}

impl KObject for Dictionary {
    fn k_ptr(&self) -> (r: usize) {
        self.k
    }

    fn from_ptr(k: usize) -> (r: Self) {
        Dictionary { k }
    }
}

impl KTyped for Dictionary {
    open spec fn k_type_spec() -> i8 {
        DICT
    }

    fn k_type() -> (r: KTypeCode) {
        KTypeCode(DICT)
    }
}

/// The index of the key list of the dictionary at `k`.
pub open spec fn key_list(rt: &Runtime, k: usize) -> usize {
    children(rt.cell(k))[0]
}

/// The index of the value list of the dictionary at `k`.
pub open spec fn value_list(rt: &Runtime, k: usize) -> usize {
    children(rt.cell(k))[1]
}

/// The keys of the dictionary at `k`, in insertion order.
pub open spec fn dict_keys(rt: &Runtime, k: usize) -> Seq<usize> {
    children(rt.cell(key_list(rt, k)))
}

/// The values of the dictionary at `k`, in insertion order.
pub open spec fn dict_values(rt: &Runtime, k: usize) -> Seq<usize> {
    children(rt.cell(value_list(rt, k)))
}

/// The dictionary at `k` is intact: its key list and value list are two distinct mixed
/// lists, other than the dictionary itself, of equal length.
pub open spec fn dict_ok(rt: &Runtime, k: usize) -> bool {
    &&& holds::<Dictionary>(rt, k)
    &&& key_list(rt, k) != value_list(rt, k)
    &&& key_list(rt, k) != k
    &&& value_list(rt, k) != k
    &&& holds::<KMixedList>(rt, key_list(rt, k))
    &&& holds::<KMixedList>(rt, value_list(rt, k))
    &&& dict_keys(rt, k).len() == dict_values(rt, k).len()
}

/// Whether the values at `a` and `b` compare equal: same tag and same scalar.
pub open spec fn same_atom(rt: &Runtime, a: usize, b: usize) -> bool {
    rt.tag_of(a) == rt.tag_of(b) && atom_value(rt.cell(a)) == atom_value(rt.cell(b))
}

/// Whether a lookup of the value at `q` can compare it with every key: it is an atom, or
/// no key shares its tag. Values of another kind cannot be compared with their own kind.
pub open spec fn comparable(rt: &Runtime, keys: Seq<usize>, q: usize) -> bool {
    is_atom_tag(rt.tag_of(q)) || forall|i: int| 0 <= i < keys.len() ==> rt.tag_of(#[trigger] keys[i]) != rt.tag_of(q)
}

/// The position of the first key that compares equal to the value at `q`, if any.
pub open spec fn first_match(rt: &Runtime, keys: Seq<usize>, q: usize) -> Option<int> {
    if exists|i: int| 0 <= i < keys.len() && same_atom(rt, #[trigger] keys[i], q) {
        Some(
            choose|i: int|
                0 <= i < keys.len() && same_atom(rt, keys[i], q) && forall|j: int|
                    0 <= j < i ==> !same_atom(rt, #[trigger] keys[j], q),
        )
    } else {
        None
    }
}

proof fn lemma_first_match_at(rt: &Runtime, keys: Seq<usize>, q: usize, i: int)
    requires
        0 <= i < keys.len(),
        same_atom(rt, keys[i], q),
        forall|j: int| 0 <= j < i ==> !same_atom(rt, #[trigger] keys[j], q),
    ensures
        first_match(rt, keys, q) == Some(i),
{
    let w = choose|w: int|
        0 <= w < keys.len() && same_atom(rt, keys[w], q) && forall|j: int|
            0 <= j < w ==> !same_atom(rt, #[trigger] keys[j], q);
    assert(0 <= w < keys.len() && same_atom(rt, keys[w], q) && forall|j: int|
        0 <= j < w ==> !same_atom(rt, #[trigger] keys[j], q));
    if w > i {
        assert(!same_atom(rt, keys[i], q));
    }
    if w < i {
        assert(!same_atom(rt, keys[w], q));
    }
}

proof fn lemma_no_match(rt: &Runtime, keys: Seq<usize>, q: usize)
    requires
        forall|j: int| 0 <= j < keys.len() ==> !same_atom(rt, #[trigger] keys[j], q),
    ensures
        first_match(rt, keys, q) is None,
{
}

impl KBox<Dictionary> {
    /// A new empty dictionary, with one reference: this handle's.
    pub fn new_dict(rt: &mut Runtime) -> (r: Self)
        requires
            old(rt).wf(),
        ensures
            final(rt).wf(),
            dict_ok(final(rt), r@),
            dict_keys(final(rt), r@) == Seq::<usize>::empty(),
            dict_values(final(rt), r@) == Seq::<usize>::empty(),
            final(rt).cell(r@).refs == 1,
            final(rt).cell(key_list(final(rt), r@)).refs == 1,
            final(rt).cell(value_list(final(rt), r@)).refs == 1,
            final(rt).cells().len() == old(rt).cells().len() + 3,
            final(rt).cells().subrange(0, old(rt).cells().len() as int) == old(rt).cells(),
            final(rt).symbols() == old(rt).symbols(),
    {
        let keys = rt.ktn(KTypeCode(MIXED_LIST), 0);
        let values = rt.ktn(KTypeCode(MIXED_LIST), 0);
        let k = rt.xd(KTypeCode(DICT), keys, values);
        proof {
            assert(rt.cells().subrange(0, old(rt).cells().len() as int) =~= old(rt).cells());
        }
        KBox::from_index(k)
    }
}

impl KBox<Dictionary> {
    /// A new dictionary holding the given entries in order; it takes over the references
    /// of every key and value. Each list's buffer is allocated once, at the number of entries.
    pub fn from_pairs(rt: &mut Runtime, pairs: Vec<(KBox<Any>, KBox<Any>)>) -> (r: Self)
        requires
            old(rt).wf(),
        ensures
            final(rt).wf(),
            dict_ok(final(rt), r@),
            dict_keys(final(rt), r@) == pairs@.map_values(|p: (KBox<Any>, KBox<Any>)| p.0@),
            dict_values(final(rt), r@) == pairs@.map_values(|p: (KBox<Any>, KBox<Any>)| p.1@),
            final(rt).cell(r@).refs == 1,
            final(rt).cell(key_list(final(rt), r@)).refs == 1,
            final(rt).cell(value_list(final(rt), r@)).refs == 1,
            final(rt).cells().len() == old(rt).cells().len() + 3,
            final(rt).cells().subrange(0, old(rt).cells().len() as int) == old(rt).cells(),
            final(rt).symbols() == old(rt).symbols(),
    {
        let ghost ps = pairs@;
        let n = pairs.len();
        let mut pairs = pairs;
        let mut keys: Vec<KBox<Any>> = Vec::new();
        let mut values: Vec<KBox<Any>> = Vec::new();
        let mut i: usize = 0;
        while i < n
            invariant
                n == ps.len(),
                i <= n,
                pairs@.len() == n - i,
                forall|x: int| 0 <= x < pairs@.len() ==> #[trigger] pairs@[x] == ps[i + x],
                keys@.map_values(|b: KBox<Any>| b@) == ps.subrange(0, i as int).map_values(
                    |p: (KBox<Any>, KBox<Any>)| p.0@,
                ),
                values@.map_values(|b: KBox<Any>| b@) == ps.subrange(0, i as int).map_values(
                    |p: (KBox<Any>, KBox<Any>)| p.1@,
                ),
            decreases n - i,
        {
            let ghost prev = pairs@;
            let (key, value) = pairs.remove(0);
            let ghost kv = keys@;
            let ghost vv = values@;
            keys.push(key);
            values.push(value);
            proof {
                assert(prev[0] == ps[i as int]);
                assert forall|x: int| 0 <= x < pairs@.len() implies #[trigger] pairs@[x] == ps[i + 1 + x] by {
                    assert(pairs@[x] == prev[x + 1]);
                }
                assert(keys@.map_values(|b: KBox<Any>| b@) =~= kv.map_values(|b: KBox<Any>| b@).push(ps[i as int].0@));
                assert(values@.map_values(|b: KBox<Any>| b@) =~= vv.map_values(|b: KBox<Any>| b@).push(ps[i as int].1@));
                assert(ps.subrange(0, i + 1).map_values(|p: (KBox<Any>, KBox<Any>)| p.0@) =~= ps.subrange(
                    0,
                    i as int,
                ).map_values(|p: (KBox<Any>, KBox<Any>)| p.0@).push(ps[i as int].0@));
                assert(ps.subrange(0, i + 1).map_values(|p: (KBox<Any>, KBox<Any>)| p.1@) =~= ps.subrange(
                    0,
                    i as int,
                ).map_values(|p: (KBox<Any>, KBox<Any>)| p.1@).push(ps[i as int].1@));
            }
            i = i + 1;
        }
        proof {
            assert(ps.subrange(0, n as int) =~= ps);
        }
        let kl = KBox::<KMixedList>::from_vec(rt, keys);
        let vl = KBox::<KMixedList>::from_vec(rt, values);
        let k = rt.xd(KTypeCode(DICT), kl.into_raw(), vl.into_raw());
        proof {
            assert(rt.cells().subrange(0, old(rt).cells().len() as int) =~= old(rt).cells());
        }
        KBox::from_index(k)
    }
}

impl Dictionary {
    /// The number of entries.
    pub fn len(&self, rt: &Runtime) -> (r: usize)
        requires
            rt.wf(),
            dict_ok(rt, self@),
        ensures
            r == dict_keys(rt, self@).len(),
    {
        proof {
            assert(crate::raw::cell_ok(rt.cell(self@)));
            assert(crate::raw::cell_ok(rt.cell(key_list(rt, self@))));
        }
        let keys = rt.child(self.k, 0);
        rt.count(keys)
    }

    /// Whether the dictionary has no entries.
    pub fn is_empty(&self, rt: &Runtime) -> (r: bool)
        requires
            rt.wf(),
            dict_ok(rt, self@),
        ensures
            r == (dict_keys(rt, self@).len() == 0),
    {
        self.len(rt) == 0
    }

    /// Borrowed handles to the keys, in insertion order.
    pub fn keys(&self, rt: &Runtime) -> (r: Vec<Unowned<Any>>)
        requires
            rt.wf(),
            dict_ok(rt, self@),
        ensures
            indices(r@) == dict_keys(rt, self@),
    {
        proof {
            assert(crate::raw::cell_ok(rt.cell(self@)));
        }
        KMixedList::from_ptr(rt.child(self.k, 0)).as_slice(rt)
    }

    /// Borrowed handles to the values, in insertion order.
    pub fn values(&self, rt: &Runtime) -> (r: Vec<Unowned<Any>>)
        requires
            rt.wf(),
            dict_ok(rt, self@),
        ensures
            indices(r@) == dict_values(rt, self@),
    {
        proof {
            assert(crate::raw::cell_ok(rt.cell(self@)));
        }
        KMixedList::from_ptr(rt.child(self.k, 1)).as_slice(rt)
    }

    /// Appends an entry. The dictionary takes over the references of the key and the
    /// value. No check is made for a repeated key.
    pub fn insert(&self, rt: &mut Runtime, key: KBox<Any>, value: KBox<Any>)
        requires
            old(rt).wf(),
            dict_ok(old(rt), self@),
        ensures
            final(rt).wf(),
            dict_ok(final(rt), self@),
            dict_keys(final(rt), self@) == dict_keys(old(rt), self@).push(key@),
            dict_values(final(rt), self@) == dict_values(old(rt), self@).push(value@),
            final(rt).cell(self@).refs == old(rt).cell(self@).refs,
            final(rt).symbols() == old(rt).symbols(),
            final(rt).cells().len() >= old(rt).cells().len(),
            forall|j: int|
                0 <= j < old(rt).cells().len() && j != self@ && j != key_list(old(rt), self@)
                    && j != value_list(old(rt), self@) ==> #[trigger] final(rt).cells()[j]
                    == old(rt).cells()[j],
    {
        let d = self.k;
        proof {
            assert(crate::raw::cell_ok(rt.cell(d)));
        }
        let a = rt.child(d, 0);
        let b = rt.child(d, 1);
        let ghost r0 = *rt;
        let a2 = rt.jk(a, key.into_raw());
        let ghost r1 = *rt;
        proof {
            assert(r1.cells()[b as int] == r0.cells()[b as int]);
            assert(r1.cells()[d as int] == r0.cells()[d as int]);
        }
        let b2 = rt.jk(b, value.into_raw());
        let ghost r2 = *rt;
        proof {
            assert(r2.cells()[d as int] == r1.cells()[d as int]);
            assert(a2 != b);
            assert(r2.cells()[a2 as int] == r1.cells()[a2 as int]);
        }
        rt.set_pair(d, a2, b2);
        proof {
            assert(children(rt.cell(d)) =~= seq![a2, b2]);
            assert(a2 != d && b2 != d);
            assert(rt.cells()[a2 as int] == r2.cells()[a2 as int]);
            assert(rt.cells()[b2 as int] == r2.cells()[b2 as int]);
            assert forall|j: int|
                0 <= j < old(rt).cells().len() && j != d && j != a && j != b implies #[trigger] rt.cells()[j]
                    == old(rt).cells()[j] by {
                assert(r1.cells()[j] == r0.cells()[j]);
                assert(r2.cells()[j] == r1.cells()[j]);
            }
        }
    }

    /// The value of the first key that compares equal to `key`, borrowed. Keys are
    /// compared as atoms: same tag and same scalar.
    pub fn get(&self, rt: &Runtime, key: &KBox<Any>) -> (r: Option<Unowned<Any>>)
        requires
            rt.wf(),
            dict_ok(rt, self@),
            rt.live(key@),
            forall|i: int| 0 <= i < dict_keys(rt, self@).len() ==> rt.live(#[trigger] dict_keys(rt, self@)[i]),
            comparable(rt, dict_keys(rt, self@), key@),
        ensures
            first_match(rt, dict_keys(rt, self@), key@) matches Some(i) ==> (r matches Some(u) && u@
                == dict_values(rt, self@)[i]),
            first_match(rt, dict_keys(rt, self@), key@) is None ==> r is None,
    {
        proof {
            assert(crate::raw::cell_ok(rt.cell(self@)));
        }
        let a = rt.child(self.k, 0);
        let b = rt.child(self.k, 1);
        let n = self.len(rt);
        let ghost keys = dict_keys(rt, self@);
        let q = key.as_raw();
        let mut i: usize = 0;
        while i < n
            invariant
                rt.wf(),
                rt.live(a),
                rt.live(b),
                keys == children(rt.cell(a)),
                keys == dict_keys(rt, self@),
                keys.len() == children(rt.cell(b)).len(),
                dict_values(rt, self@) == children(rt.cell(b)),
                n == keys.len(),
                i <= n,
                q == key@,
                rt.live(q),
                forall|x: int| 0 <= x < keys.len() ==> rt.live(#[trigger] keys[x]),
                comparable(rt, keys, q),
                forall|j: int| 0 <= j < i ==> !same_atom(rt, #[trigger] keys[j], q),
            decreases n - i,
        {
            let kk = rt.child(a, i);
            proof {
                assert(kk == keys[i as int]);
            }
            if rt.atoms_equal(kk, q) {
                proof {
                    lemma_first_match_at(rt, keys, q, i as int);
                    assert(first_match(rt, dict_keys(rt, self@), key@) == Some(i as int));
                }
                let v = rt.child(b, i);
                let u = Unowned::new(Any::from_ptr(v));
                proof {
                    assert(u@ == dict_values(rt, self@)[i as int]);
                }
                return Some(u);
            }
            i = i + 1;
        }
        proof {
            lemma_no_match(rt, keys, q);
        }
        None
    }

    /// Borrowed handles to the entries, in insertion order.
    pub fn iter(&self, rt: &Runtime) -> (r: (Vec<Unowned<Any>>, Vec<Unowned<Any>>))
        requires
            rt.wf(),
            dict_ok(rt, self@),
        ensures
            indices(r.0@) == dict_keys(rt, self@),
            indices(r.1@) == dict_values(rt, self@),
    {
        (self.keys(rt), self.values(rt))
    }
}

/// After `k1 -> v1` then `k2 -> v2` go into an empty dictionary, its keys are `[k1, k2]`,
/// a lookup of a value equal to `k1` finds position 0 (so `v1`), one equal to `k2` but not
/// to `k1` finds position 1, and one equal to neither finds nothing.
pub proof fn lemma_two_inserts(rt: &Runtime, k1: usize, k2: usize, q: usize)
    ensures
        Seq::<usize>::empty().push(k1).push(k2) == seq![k1, k2],
        same_atom(rt, k1, q) ==> first_match(rt, seq![k1, k2], q) == Some(0int),
        !same_atom(rt, k1, q) && same_atom(rt, k2, q) ==> first_match(rt, seq![k1, k2], q) == Some(
            1int,
        ),
        !same_atom(rt, k1, q) && !same_atom(rt, k2, q) ==> first_match(rt, seq![k1, k2], q) is None,
{
    let ks = seq![k1, k2];
    assert(Seq::<usize>::empty().push(k1).push(k2) =~= ks);
    if same_atom(rt, k1, q) {
        assert(ks[0] == k1);
        lemma_first_match_at(rt, ks, q, 0);
    } else if same_atom(rt, k2, q) {
        assert(ks[0] == k1 && ks[1] == k2);
        lemma_first_match_at(rt, ks, q, 1);
    } else {
        assert forall|j: int| 0 <= j < ks.len() implies !same_atom(rt, #[trigger] ks[j], q) by {
            if j == 0 {
                assert(ks[j] == k1);
            } else {
                assert(ks[j] == k2);
            }
        }
        lemma_no_match(rt, ks, q);
    }
}

/// An atom compares equal to itself, so a key is always found by a lookup of itself.
pub proof fn lemma_same_atom_reflexive(rt: &Runtime, k: usize)
    ensures
        same_atom(rt, k, k),
{
}

} // verus!
