//! Tables: a dictionary from column names to equal-length columns, under the table tag.
use vstd::prelude::*;

use crate::dictionary::{dict_keys, dict_ok, dict_values, key_list, value_list, Dictionary};
use crate::k_type::{KTypeCode, TABLE};
use crate::kbox::{holds, Any, KBox, Unowned};
use crate::list::{indices, KMixedList};
use crate::raw::Runtime;
use crate::type_traits::{KObject, KTyped};

verus! {

/// The view of a table. That the columns share one length is not checked here.
pub struct Table {
    k: usize,
}

impl View for Table {
    type V = usize;

    closed spec fn view(&self) -> usize {
        self.k
    }
}

impl KObject for Table {
    fn k_ptr(&self) -> (r: usize) {
        self.k
    }

    fn from_ptr(k: usize) -> (r: Self) {
        Table { k }
    }
}

impl KTyped for Table {
    open spec fn k_type_spec() -> i8 {
        TABLE
    }

    fn k_type() -> (r: KTypeCode) {
        KTypeCode(TABLE)
    }
}

/// The table at `k` is intact: its names and its columns are two distinct mixed lists of
/// equal length, other than the table itself.
pub open spec fn table_ok(rt: &Runtime, k: usize) -> bool {
    &&& holds::<Table>(rt, k)
    &&& key_list(rt, k) != value_list(rt, k)
    &&& key_list(rt, k) != k
    &&& value_list(rt, k) != k
    &&& holds::<KMixedList>(rt, key_list(rt, k))
    &&& holds::<KMixedList>(rt, value_list(rt, k))
    &&& dict_keys(rt, k).len() == dict_values(rt, k).len()
}

impl KBox<Table> {
    /// Turns a dictionary of columns into a table: the same value under the table tag.
    pub fn from_dict(rt: &mut Runtime, d: KBox<Dictionary>) -> (r: Self)
        requires
            old(rt).wf(),
            dict_ok(old(rt), d@),
        ensures
            final(rt).wf(),
            r@ == d@,
            table_ok(final(rt), r@),
            dict_keys(final(rt), r@) == dict_keys(old(rt), d@),
            dict_values(final(rt), r@) == dict_values(old(rt), d@),
            final(rt).cell(r@).refs == old(rt).cell(d@).refs,
            final(rt).symbols() == old(rt).symbols(),
    {
        let k = d.into_raw();
        proof {
            assert(crate::raw::cell_ok(old(rt).cell(k)));
        }
        rt.retag_pair(k, KTypeCode(TABLE));
        KBox::from_index(k)
    }
}

impl Table {
    /// The number of columns.
    pub fn num_columns(&self, rt: &Runtime) -> (r: usize)
        requires
            rt.wf(),
            table_ok(rt, self@),
        ensures
            r == dict_keys(rt, self@).len(),
    {
        proof {
            assert(crate::raw::cell_ok(rt.cell(self@)));
            assert(crate::raw::cell_ok(rt.cell(key_list(rt, self@))));
        }
        rt.count(rt.child(self.k, 0))
    }

    /// Borrowed handles to the column names, in order.
    pub fn column_names(&self, rt: &Runtime) -> (r: Vec<Unowned<Any>>)
        requires
            rt.wf(),
            table_ok(rt, self@),
        ensures
            indices(r@) == dict_keys(rt, self@),
    {
        proof {
            assert(crate::raw::cell_ok(rt.cell(self@)));
        }
        KMixedList::from_ptr(rt.child(self.k, 0)).as_slice(rt)
    }

    /// Borrowed handles to the columns, in order.
    pub fn columns(&self, rt: &Runtime) -> (r: Vec<Unowned<Any>>)
        requires
            rt.wf(),
            table_ok(rt, self@),
        ensures
            indices(r@) == dict_values(rt, self@),
    {
        proof {
            assert(crate::raw::cell_ok(rt.cell(self@)));
        }
        KMixedList::from_ptr(rt.child(self.k, 1)).as_slice(rt)
    }
}

} // verus!
