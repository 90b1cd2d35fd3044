//! The stored representation: tagged cells with reference counts, held in one arena.
//!
//! A cell is addressed by its index. An index is never reused: once a cell is freed its
//! slot stays empty, so a stale index can never reach a newer value.
use vstd::prelude::*;

use crate::date_time_types::{Date, Minute, Month, Second, Time, Timespan, Timestamp};
use crate::guid::Guid;
use crate::k_type::{is_atom_tag, is_list_tag, KTypeCode, TypeCode, DICT, ERROR, MIXED_LIST, TABLE};
use crate::symbol::Symbol;

verus! {

/// One scalar value, tagged by its kind. Reals, floats and datetimes are held as their
/// IEEE-754 bit patterns.
#[derive(Clone, Copy, Debug, PartialEq, Eq, Structural)]
pub enum Scalar {
    Boolean(bool),
    Guid(Guid),
    Byte(u8),
    Short(i16),
    Int(i32),
    Long(i64),
    Real(u32),
    Float(u64),
    Char(i8),
    Symbol(Symbol),
    Timestamp(Timestamp),
    Month(Month),
    Date(Date),
    DateTime(u64),
    Timespan(Timespan),
    Minute(Minute),
    Second(Second),
    Time(Time),
}

impl Scalar {
    pub open spec fn kind_spec(self) -> TypeCode {
        match self {
            Scalar::Boolean(_) => TypeCode::Boolean,
            Scalar::Guid(_) => TypeCode::Guid,
            Scalar::Byte(_) => TypeCode::Byte,
            Scalar::Short(_) => TypeCode::Short,
            Scalar::Int(_) => TypeCode::Int,
            Scalar::Long(_) => TypeCode::Long,
            Scalar::Real(_) => TypeCode::Real,
            Scalar::Float(_) => TypeCode::Float,
            Scalar::Char(_) => TypeCode::Char,
            Scalar::Symbol(_) => TypeCode::Symbol,
            Scalar::Timestamp(_) => TypeCode::Timestamp,
            Scalar::Month(_) => TypeCode::Month,
            Scalar::Date(_) => TypeCode::Date,
            Scalar::DateTime(_) => TypeCode::DateTime,
            Scalar::Timespan(_) => TypeCode::Timespan,
            Scalar::Minute(_) => TypeCode::Minute,
            Scalar::Second(_) => TypeCode::Second,
            Scalar::Time(_) => TypeCode::Time,
        }
    }

    /// The kind of the scalar.
    pub fn kind(&self) -> (r: TypeCode)
        ensures
            r == self.kind_spec(),
    {
        match self {
            Scalar::Boolean(_) => TypeCode::Boolean,
            Scalar::Guid(_) => TypeCode::Guid,
            Scalar::Byte(_) => TypeCode::Byte,
            Scalar::Short(_) => TypeCode::Short,
            Scalar::Int(_) => TypeCode::Int,
            Scalar::Long(_) => TypeCode::Long,
            Scalar::Real(_) => TypeCode::Real,
            Scalar::Float(_) => TypeCode::Float,
            Scalar::Char(_) => TypeCode::Char,
            Scalar::Symbol(_) => TypeCode::Symbol,
            Scalar::Timestamp(_) => TypeCode::Timestamp,
            Scalar::Month(_) => TypeCode::Month,
            Scalar::Date(_) => TypeCode::Date,
            Scalar::DateTime(_) => TypeCode::DateTime,
            Scalar::Timespan(_) => TypeCode::Timespan,
            Scalar::Minute(_) => TypeCode::Minute,
            Scalar::Second(_) => TypeCode::Second,
            Scalar::Time(_) => TypeCode::Time,
        }
    }
}

/// What a cell holds after its header.
pub enum Payload {
    /// One scalar: an atom, or the message symbol of an error.
    Atom(Scalar),
    /// The elements of a list of one scalar kind.
    Items(Vec<Scalar>),
    /// The elements of a mixed list: cells that the list holds one reference to each.
    Mixed(Vec<usize>),
    /// The key list and the value list of a dictionary or table, one reference each.
    Pair(usize, usize),
}

/// A stored value: header (tag, attribute byte, reference count, list capacity) and payload.
pub struct Cell {
    pub tag: i8,
    pub attr: u8,
    pub refs: u32,
    pub cap: usize,
    pub payload: Payload,
}

/// The scalar of an atom or error cell.
pub open spec fn atom_value(c: Cell) -> Scalar {
    match c.payload {
        Payload::Atom(s) => s,
        _ => Scalar::Boolean(false),
    }
}

/// The elements of a list of one scalar kind.
pub open spec fn list_items(c: Cell) -> Seq<Scalar> {
    match c.payload {
        Payload::Items(v) => v@,
        _ => Seq::empty(),
    }
}

/// The cells that a cell holds references to.
pub open spec fn children(c: Cell) -> Seq<usize> {
    match c.payload {
        Payload::Mixed(v) => v@,
        Payload::Pair(a, b) => seq![a, b],
        _ => Seq::empty(),
    }
}

/// The number of elements of a list cell.
pub open spec fn list_len(c: Cell) -> nat {
    match c.payload {
        Payload::Items(v) => v@.len(),
        Payload::Mixed(v) => v@.len(),
        _ => 0,
    }
}

/// The correspondence between a cell's tag and the shape of its payload.
pub open spec fn cell_ok(c: Cell) -> bool {
    &&& c.refs >= 1
    &&& if is_atom_tag(c.tag) {
        &&& c.payload is Atom
        &&& atom_value(c).kind_spec().atom_tag() == c.tag
    } else if c.tag == ERROR {
        &&& c.payload is Atom
        &&& atom_value(c) is Symbol
    } else if is_list_tag(c.tag) {
        &&& c.payload is Items
        &&& list_items(c).len() <= c.cap
        &&& forall|i: int| 0 <= i < list_items(c).len() ==> (#[trigger] list_items(c)[i]).kind_spec().list_tag() == c.tag
    } else if c.tag == MIXED_LIST {
        &&& c.payload is Mixed
        &&& children(c).len() <= c.cap
    } else if c.tag == DICT || c.tag == TABLE {
        c.payload is Pair
    } else {
        false
    }
}

/// A fresh atom holding `s`, with one reference.
pub open spec fn atom_cell(s: Scalar) -> Cell {
    Cell { tag: s.kind_spec().atom_tag(), attr: 0, refs: 1, cap: 0, payload: Payload::Atom(s) }
}

/// The same cell with another reference count.
pub open spec fn with_refs(c: Cell, refs: u32) -> Cell {
    Cell { tag: c.tag, attr: c.attr, refs, cap: c.cap, payload: c.payload }
}

/// The number of occupied slots.
pub open spec fn live_count(s: Seq<Option<Cell>>) -> nat
    decreases s.len(),
{
    if s.len() == 0 {
        0
    } else {
        live_count(s.drop_last()) + if s.last() is Some {
            1nat
        } else {
            0nat
        }
    }
}

proof fn lemma_live_count_free(s: Seq<Option<Cell>>, k: int)
    requires
        0 <= k < s.len(),
        s[k] is Some,
    ensures
        live_count(s.update(k, None)) + 1 == live_count(s),
    decreases s.len(),
{
    let t = s.update(k, None);
    if k == s.len() - 1 {
        assert(t.drop_last() =~= s.drop_last());
    } else {
        assert(t.drop_last() =~= s.drop_last().update(k, None));
        lemma_live_count_free(s.drop_last(), k);
    }
}

proof fn lemma_live_count_keep(s: Seq<Option<Cell>>, k: int, c: Cell)
    requires
        0 <= k < s.len(),
        s[k] is Some,
    ensures
        live_count(s.update(k, Some(c))) == live_count(s),
    decreases s.len(),
{
    let t = s.update(k, Some(c));
    if k == s.len() - 1 {
        assert(t.drop_last() =~= s.drop_last());
    } else {
        assert(t.drop_last() =~= s.drop_last().update(k, Some(c)));
        lemma_live_count_keep(s.drop_last(), k, c);
    }
}

/// How many times `j` occurs in `s`.
pub open spec fn count_in(s: Seq<usize>, j: int) -> nat
    decreases s.len(),
{
    if s.len() == 0 {
        0
    } else {
        count_in(s.drop_last(), j) + if s.last() == j {
            1nat
        } else {
            0nat
        }
    }
}

/// `r` raised by one `n` times, staying at the largest count once it is reached.
pub open spec fn sat_add(r: u32, n: nat) -> u32
    decreases n,
{
    if n == 0 {
        r
    } else {
        let p = sat_add(r, (n - 1) as nat);
        if p < u32::MAX {
            (p + 1) as u32
        } else {
            p
        }
    }
}

/// The counts after a mixed list's elements were handed over: when the list had one
/// reference they moved and no count changed; else each element gained one reference per
/// time the list holds it. Slots other than `k` and `other` are meant.
pub open spec fn handed_over(new: Seq<Option<Cell>>, old: &Runtime, k: usize, other: usize) -> bool {
    forall|j: int|
        0 <= j < old.cells().len() && j != k && j != other ==> {
            &&& old.cell(other).refs == 1 ==> #[trigger] new[j] == old.cells()[j]
            &&& old.cell(other).refs > 1 ==> (new[j] is Some <==> old.cells()[j] is Some)
            &&& old.cell(other).refs > 1 && new[j] is Some ==> {
                &&& same_shape(new[j]->Some_0, old.cells()[j]->Some_0)
                &&& new[j]->Some_0.refs == sat_add(
                    old.cells()[j]->Some_0.refs,
                    count_in(children(old.cell(other)), j),
                )
            }
        }
}

proof fn lemma_count_in_append(a: Seq<usize>, b: Seq<usize>, j: int)
    ensures
        count_in(a + b, j) == count_in(a, j) + count_in(b, j),
    decreases b.len(),
{
    if b.len() == 0 {
        assert(a + b =~= a);
    } else {
        assert((a + b).drop_last() =~= a + b.drop_last());
        lemma_count_in_append(a, b.drop_last(), j);
    }
}

proof fn lemma_count_in_contains(s: Seq<usize>, j: usize)
    requires
        s.contains(j),
    ensures
        count_in(s, j as int) >= 1,
    decreases s.len(),
{
    if s.last() != j {
        let i = choose|i: int| 0 <= i < s.len() && s[i] == j;
        assert(s.drop_last()[i] == j);
        lemma_count_in_contains(s.drop_last(), j);
    }
}

/// The store: every value that handles refer to, and the symbol table.
pub struct Runtime {
    cells: Vec<Option<Cell>>,
    symbols: Vec<String>,
}

impl Runtime {
    /// The slots of the arena, by index.
    pub closed spec fn cells(&self) -> Seq<Option<Cell>> {
        self.cells@
    }

    /// The texts of the interned symbols, by symbol id.
    pub closed spec fn symbols(&self) -> Seq<Seq<char>> {
        self.symbols@.map_values(|s: String| s@)
    }

    /// Every stored cell agrees with its tag, and no text is interned twice.
    pub open spec fn wf(&self) -> bool {
        &&& forall|i: int|
            0 <= i < self.cells().len() && (#[trigger] self.cells()[i]) is Some ==> cell_ok(
                self.cells()[i]->Some_0,
            )
        &&& forall|i: int, j: int|
            0 <= i < self.symbols().len() && 0 <= j < self.symbols().len() && i != j
                ==> #[trigger] self.symbols()[i] != #[trigger] self.symbols()[j]
    }

    /// Whether the index addresses a stored value.
    pub open spec fn live(&self, k: usize) -> bool {
        k < self.cells().len() && self.cells()[k as int] is Some
    }

    /// The stored value at an index.
    pub open spec fn cell(&self, k: usize) -> Cell {
        self.cells()[k as int]->Some_0
    }

    /// The tag of the stored value at an index.
    pub open spec fn tag_of(&self, k: usize) -> i8 {
        self.cell(k).tag
    }

    /// An empty store.
    pub fn new() -> (r: Runtime)
        ensures
            r.wf(),
            r.cells().len() == 0,
            r.symbols().len() == 0,
    {
        let r = Runtime { cells: Vec::new(), symbols: Vec::new() };
        assert(r.symbols() =~= Seq::<Seq<char>>::empty());
        r
    }

    /// The number of slots, freed ones included.
    pub fn slot_count(&self) -> (r: usize)
        ensures
            r == self.cells().len(),
    {
        self.cells.len()
    }

    /// Whether the index addresses a stored value.
    pub fn is_live(&self, k: usize) -> (r: bool)
        ensures
            r == self.live(k),
    {
        k < self.cells.len() && self.cells[k].is_some()
    }

    /// The reference count of a stored value, or zero for a freed or unknown index.
    pub fn ref_count(&self, k: usize) -> (r: u32)
        ensures
            self.live(k) ==> r == self.cell(k).refs,
            !self.live(k) ==> r == 0,
    {
        if k < self.cells.len() {
            match &self.cells[k] {
                Some(c) => c.refs,
                None => 0,
            }
        } else {
            0
        }
    }

    /// The tag of a stored value.
    pub fn tag(&self, k: usize) -> (r: KTypeCode)
        requires
            self.live(k),
        ensures
            r.0 == self.tag_of(k),
    {
        match &self.cells[k] {
            Some(c) => KTypeCode(c.tag),
            None => KTypeCode(0),
        }
    }

    /// The attribute byte of a stored value.
    pub fn attr(&self, k: usize) -> (r: u8)
        requires
            self.live(k),
        ensures
            r == self.cell(k).attr,
    {
        match &self.cells[k] {
            Some(c) => c.attr,
            None => 0,
        }
    }

    /// Stores a new cell in a fresh slot.
    fn store(&mut self, c: Cell) -> (k: usize)
        requires
            old(self).wf(),
            cell_ok(c),
        ensures
            final(self).wf(),
            k == old(self).cells().len(),
            final(self).cells() == old(self).cells().push(Some(c)),
            final(self).symbols() == old(self).symbols(),
    {
        let k = self.cells.len();
        self.cells.push(Some(c));
        assert(self.cells() =~= old(self).cells().push(Some(c)));
        assert(self.symbols() =~= old(self).symbols());
        assert forall|i: int|
            0 <= i < self.cells().len() && (#[trigger] self.cells()[i]) is Some implies cell_ok(
                self.cells()[i]->Some_0,
            ) by {
            if i < k {
                assert(self.cells()[i] == old(self).cells()[i]);
            }
        }
        k
    }

    /// Takes the cell at a live index out of its slot, leaving the slot empty.
    fn take(&mut self, k: usize) -> (c: Cell)
        requires
            old(self).wf(),
            old(self).live(k),
        ensures
            final(self).wf(),
            c == old(self).cell(k),
            cell_ok(c),
            final(self).cells() == old(self).cells().update(k as int, None),
            final(self).symbols() == old(self).symbols(),
    {
        let c = self.cells[k].take();
        assert(self.cells() =~= old(self).cells().update(k as int, None));
        assert(self.symbols() =~= old(self).symbols());
        assert forall|i: int|
            0 <= i < self.cells().len() && (#[trigger] self.cells()[i]) is Some implies cell_ok(
                self.cells()[i]->Some_0,
            ) by {
            assert(self.cells()[i] == old(self).cells()[i]);
        }
        c.unwrap()
    }

    /// Puts a cell into a slot.
    fn put(&mut self, k: usize, c: Cell)
        requires
            old(self).wf(),
            k < old(self).cells().len(),
            cell_ok(c),
        ensures
            final(self).wf(),
            final(self).cells() == old(self).cells().update(k as int, Some(c)),
            final(self).symbols() == old(self).symbols(),
    {
        self.cells.set(k, Some(c));
        assert(self.cells() =~= old(self).cells().update(k as int, Some(c)));
        assert(self.symbols() =~= old(self).symbols());
        assert forall|i: int|
            0 <= i < self.cells().len() && (#[trigger] self.cells()[i]) is Some implies cell_ok(
                self.cells()[i]->Some_0,
            ) by {
            if i != k {
                assert(self.cells()[i] == old(self).cells()[i]);
            }
        }
    }
}

/// A capacity larger than the given one.
fn grown(cap: usize) -> (r: usize)
    requires
        cap < usize::MAX,
    ensures
        r > cap,
{
    if cap < 4 {
        4
    } else if cap <= usize::MAX / 2 {
        cap * 2
    } else {
        usize::MAX
    }
}

impl Runtime {
    /// No slot below the old length changed, but the one at `k`.
    pub open spec fn unchanged_except(&self, old: &Runtime, k: usize) -> bool {
        &&& self.cells().len() >= old.cells().len()
        &&& forall|j: int|
            0 <= j < old.cells().len() && j != k ==> #[trigger] self.cells()[j] == old.cells()[j]
        &&& self.symbols() == old.symbols()
    }

    /// The value that was at `k` is now at `r`: either in place, or moved to a fresh slot
    /// with the old slot freed.
    pub open spec fn relocated(&self, old: &Runtime, k: usize, r: usize) -> bool {
        ||| r == k && self.cells().len() == old.cells().len()
        ||| r == old.cells().len() && self.cells().len() == old.cells().len() + 1
            && self.cells()[k as int] is None
    }

    /// A fresh slot `k` was added and nothing else changed.
    pub open spec fn added(&self, old: &Runtime, k: usize) -> bool {
        &&& k == old.cells().len()
        &&& self.cells().len() == old.cells().len() + 1
        &&& self.cells().drop_last() == old.cells()
        &&& self.cells()[k as int] is Some
        &&& self.symbols() == old.symbols()
    }

    /// Creates an atom holding a scalar, with one reference.
    pub fn ka(&mut self, s: Scalar) -> (k: usize)
        requires
            old(self).wf(),
        ensures
            final(self).wf(),
            final(self).added(old(self), k),
            final(self).cell(k).tag == s.kind_spec().atom_tag(),
            final(self).cell(k).refs == 1,
            final(self).cell(k).attr == 0,
            atom_value(final(self).cell(k)) == s,
            final(self).cells() == old(self).cells().push(Some(atom_cell(s))),
    {
        let t = s.kind().as_atom();
        let k = self.store(Cell { tag: t.0, attr: 0, refs: 1, cap: 0, payload: Payload::Atom(s) });
        assert(self.cells().drop_last() =~= old(self).cells());
        k
    }

    /// Creates an empty list with the given tag and room for `capacity` elements, with
    /// one reference.
    pub fn ktn(&mut self, tag: KTypeCode, capacity: usize) -> (k: usize)
        requires
            old(self).wf(),
            is_list_tag(tag.0) || tag.0 == MIXED_LIST,
        ensures
            final(self).wf(),
            final(self).added(old(self), k),
            final(self).cell(k).tag == tag.0,
            final(self).cell(k).refs == 1,
            final(self).cell(k).attr == 0,
            final(self).cell(k).cap == capacity,
            list_len(final(self).cell(k)) == 0,
            list_items(final(self).cell(k)) == Seq::<Scalar>::empty(),
            children(final(self).cell(k)) == Seq::<usize>::empty(),
    {
        let payload = if tag.0 == MIXED_LIST {
            Payload::Mixed(Vec::new())
        } else {
            Payload::Items(Vec::new())
        };
        let c = Cell { tag: tag.0, attr: 0, refs: 1, cap: capacity, payload };
        assert(list_items(c) =~= Seq::<Scalar>::empty());
        let k = self.store(c);
        assert(self.cells().drop_last() =~= old(self).cells());
        k
    }

    /// Creates an error whose message is the given symbol: the symbol is stored as an
    /// atom, and the atom's tag is then overwritten with the error tag.
    pub fn krr(&mut self, msg: Symbol) -> (k: usize)
        requires
            old(self).wf(),
        ensures
            final(self).wf(),
            final(self).added(old(self), k),
            final(self).cell(k).tag == ERROR,
            final(self).cell(k).refs == 1,
            atom_value(final(self).cell(k)) == Scalar::Symbol(msg),
    {
        let k = self.ka(Scalar::Symbol(msg));
        let c = self.take(k);
        let Cell { tag: _, attr, refs, cap, payload } = c;
        self.put(k, Cell { tag: ERROR, attr, refs, cap, payload });
        assert(self.cells().drop_last() =~= old(self).cells());
        k
    }

    /// Creates a dictionary (or a table) from a key list and a value list, taking over
    /// one reference to each.
    pub fn xd(&mut self, tag: KTypeCode, keys: usize, values: usize) -> (k: usize)
        requires
            old(self).wf(),
            tag.0 == DICT || tag.0 == TABLE,
        ensures
            final(self).wf(),
            final(self).added(old(self), k),
            final(self).cell(k).tag == tag.0,
            final(self).cell(k).refs == 1,
            final(self).cell(k).payload == Payload::Pair(keys, values),
    {
        let k = self.store(Cell { tag: tag.0, attr: 0, refs: 1, cap: 0, payload: Payload::Pair(keys, values) });
        assert(self.cells().drop_last() =~= old(self).cells());
        k
    }

    /// Puts a list cell back after its payload grew: in place while it fits its capacity,
    /// else in a fresh slot with a larger capacity.
    fn place_list(&mut self, k: usize, c: Cell, new_len: usize) -> (r: usize)
        requires
            old(self).wf(),
            k < old(self).cells().len(),
            old(self).cells()[k as int] is None,
            new_len >= 1,
            list_len(c) == new_len,
            new_len - 1 <= c.cap,
            cell_ok(Cell { tag: c.tag, attr: c.attr, refs: c.refs, cap: usize::MAX, payload: c.payload }),
        ensures
            final(self).wf(),
            final(self).relocated(old(self), k, r),
            final(self).unchanged_except(old(self), k),
            final(self).live(r),
            final(self).cell(r).tag == c.tag,
            final(self).cell(r).attr == c.attr,
            final(self).cell(r).refs == c.refs,
            final(self).cell(r).payload == c.payload,
            new_len <= c.cap ==> r == k && final(self).cell(r).cap == c.cap,
    {
        let Cell { tag, attr, refs, cap, payload } = c;
        if new_len <= cap {
            self.put(k, Cell { tag, attr, refs, cap, payload });
            k
        } else {
            let nc = grown(cap);
            self.store(Cell { tag, attr, refs, cap: nc, payload })
        }
    }

    /// Appends a scalar to a list of its kind. The list may move to a fresh slot; the
    /// returned index is where it is now.
    pub fn ja(&mut self, k: usize, s: Scalar) -> (r: usize)
        requires
            old(self).wf(),
            old(self).live(k),
            is_list_tag(old(self).tag_of(k)),
            s.kind_spec().list_tag() == old(self).tag_of(k),
        ensures
            final(self).wf(),
            final(self).relocated(old(self), k, r),
            final(self).unchanged_except(old(self), k),
            final(self).live(r),
            final(self).cell(r).tag == old(self).cell(k).tag,
            final(self).cell(r).attr == old(self).cell(k).attr,
            final(self).cell(r).refs == old(self).cell(k).refs,
            list_items(final(self).cell(r)) == list_items(old(self).cell(k)).push(s),
            list_items(old(self).cell(k)).len() < old(self).cell(k).cap ==> r == k && final(self).cell(
                r,
            ).cap == old(self).cell(k).cap,
    {
        let c = self.take(k);
        let Cell { tag, attr, refs, cap, payload } = c;
        let mut v = match payload {
            Payload::Items(v) => v,
            _ => Vec::new(),
        };
        let n = v.len();
        v.push(s);
        let m = v.len();
        let nc = Cell { tag, attr, refs, cap, payload: Payload::Items(v) };
        assert forall|i: int| 0 <= i < v@.len() implies (#[trigger] v@[i]).kind_spec().list_tag()
            == tag by {
            if i < n {
                assert(v@[i] == list_items(c)[i]);
            }
        }
        self.place_list(k, nc, m)
    }

    /// Appends a value to a mixed list. The list takes over the caller's reference to the
    /// value: no count changes. The list may move to a fresh slot; the returned index is
    /// where it is now.
    pub fn jk(&mut self, k: usize, item: usize) -> (r: usize)
        requires
            old(self).wf(),
            old(self).live(k),
            old(self).tag_of(k) == MIXED_LIST,
        ensures
            final(self).wf(),
            final(self).relocated(old(self), k, r),
            final(self).unchanged_except(old(self), k),
            final(self).live(r),
            final(self).cell(r).tag == MIXED_LIST,
            final(self).cell(r).attr == old(self).cell(k).attr,
            final(self).cell(r).refs == old(self).cell(k).refs,
            children(final(self).cell(r)) == children(old(self).cell(k)).push(item),
            children(old(self).cell(k)).len() < old(self).cell(k).cap ==> r == k && final(self).cell(
                r,
            ).cap == old(self).cell(k).cap,
    {
        let c = self.take(k);
        let Cell { tag, attr, refs, cap, payload } = c;
        let mut v = match payload {
            Payload::Mixed(v) => v,
            _ => Vec::new(),
        };
        v.push(item);
        let m = v.len();
        self.place_list(k, Cell { tag, attr, refs, cap, payload: Payload::Mixed(v) }, m)
    }
}

/// The same cell but for a reference count that is no larger.
pub open spec fn weakened(new: Cell, old: Cell) -> bool {
    &&& new.tag == old.tag
    &&& new.attr == old.attr
    &&& new.cap == old.cap
    &&& new.payload == old.payload
    &&& new.refs <= old.refs
}

/// The same cell but for its reference count.
pub open spec fn same_shape(new: Cell, old: Cell) -> bool {
    &&& new.tag == old.tag
    &&& new.attr == old.attr
    &&& new.cap == old.cap
    &&& new.payload == old.payload
}

/// The references a payload holds, handed to the caller.
fn owned_children(p: Payload) -> (r: Vec<usize>)
    ensures
        r@ == children(Cell { tag: 0, attr: 0, refs: 1, cap: 0, payload: p }),
{
    match p {
        Payload::Mixed(v) => v,
        Payload::Pair(a, b) => {
            let r = vec![a, b];
            assert(r@ =~= seq![a, b]);
            r
        },
        _ => Vec::new(),
    }
}

impl Runtime {
    /// No slot was revived or reshaped, and no count grew: slots only lost references or
    /// were freed.
    pub open spec fn only_released(&self, old: &Runtime) -> bool {
        &&& self.cells().len() == old.cells().len()
        &&& self.symbols() == old.symbols()
        &&& forall|j: int|
            0 <= j < self.cells().len() && (#[trigger] self.cells()[j]) is Some ==> {
                &&& old.cells()[j] is Some
                &&& weakened(self.cells()[j]->Some_0, old.cells()[j]->Some_0)
            }
    }

    /// What giving up one reference to `k` did: a shared value lost one reference and
    /// nothing else changed; a value that had one reference is freed, and when it held no
    /// references to other values nothing else changed; when it did, each value it held
    /// lost at least one reference per time it was held (more when a freed value held it
    /// too), so one held once with a single reference is freed. A freed index changes
    /// nothing.
    pub open spec fn released(&self, old: &Runtime, k: usize) -> bool {
        &&& self.only_released(old)
        &&& !old.live(k) ==> self.cells() == old.cells()
        &&& old.live(k) && old.cell(k).refs > 1 ==> self.cells() == old.cells().update(
            k as int,
            Some(with_refs(old.cell(k), (old.cell(k).refs - 1) as u32)),
        )
        &&& old.live(k) && old.cell(k).refs == 1 ==> self.cells()[k as int] is None
        &&& old.live(k) && old.cell(k).refs == 1 && children(old.cell(k)).len() == 0
            ==> self.cells() == old.cells().update(k as int, None)
        &&& old.live(k) && old.cell(k).refs == 1 ==> forall|j: int|
            0 <= j < self.cells().len() && j != k && (#[trigger] self.cells()[j]) is Some
                ==> self.cells()[j]->Some_0.refs + count_in(children(old.cell(k)), j)
                <= old.cells()[j]->Some_0.refs
        &&& old.live(k) && old.cell(k).refs == 1 ==> forall|j: usize|
            j < self.cells().len() && j != k && #[trigger] children(old.cell(k)).contains(j)
                && old.live(j) && old.cell(j).refs == 1 ==> self.cells()[j as int] is None
    }

    /// Adds one reference to a stored value. A count at its maximum stays there, which pins
    /// the value: it can then never be freed, but never freed too early either.
    pub fn r1(&mut self, k: usize) -> (r: usize)
        requires
            old(self).wf(),
            old(self).live(k),
        ensures
            final(self).wf(),
            r == k,
            final(self).cells() == old(self).cells().update(
                k as int,
                Some(
                    with_refs(
                        old(self).cell(k),
                        if old(self).cell(k).refs < u32::MAX {
                            (old(self).cell(k).refs + 1) as u32
                        } else {
                            old(self).cell(k).refs
                        },
                    ),
                ),
            ),
            final(self).symbols() == old(self).symbols(),
    {
        let c = self.take(k);
        let Cell { tag, attr, refs, cap, payload } = c;
        let n: u32 = if refs < u32::MAX {
            refs + 1
        } else {
            refs
        };
        self.put(k, Cell { tag, attr, refs: n, cap, payload });
        assert(self.cells() =~= old(self).cells().update(k as int, Some(with_refs(c, n))));
        k
    }

    /// Gives up one reference to a stored value. When the last reference goes, the value is
    /// freed and gives up the references it holds in turn. A freed index is left alone.
    pub fn r0(&mut self, k: usize)
        requires
            old(self).wf(),
            k < old(self).cells().len(),
        ensures
            final(self).wf(),
            final(self).released(old(self), k),
    {
        if !self.is_live(k) {
            return ;
        }
        let c = self.take(k);
        if c.refs > 1 {
            let Cell { tag, attr, refs, cap, payload } = c;
            self.put(k, Cell { tag, attr, refs: refs - 1, cap, payload });
            assert(self.cells() =~= old(self).cells().update(
                k as int,
                Some(with_refs(c, (refs - 1) as u32)),
            ));
            return ;
        }
        let ghost ch = children(c);
        let mut work = owned_children(c.payload);
        let ghost empty_at_start = work@.len() == 0;
        let ghost first = self.cells();
        proof {
            assert(work@ == ch);
        }
        while work.len() > 0
            invariant
                self.wf(),
                self.only_released(old(self)),
                k < self.cells().len(),
                self.cells()[k as int] is None,
                empty_at_start ==> work@.len() == 0 && self.cells() == first,
                first == old(self).cells().update(k as int, None),
                forall|j: int|
                    0 <= j < self.cells().len() && j != k && (#[trigger] self.cells()[j]) is Some
                        ==> self.cells()[j]->Some_0.refs + count_in(ch, j) <= old(self).cells()[j]->Some_0.refs
                        + count_in(work@, j),
            decreases live_count(self.cells()), work.len(),
        {
            let ghost w0 = work@;
            let j = work.pop().unwrap();
            proof {
                assert(w0.drop_last() == work@);
                assert(w0.last() == j);
            }
            if self.is_live(j) {
                let ghost before = self.cells();
                let cj = self.take(j);
                proof {
                    lemma_live_count_free(before, j as int);
                }
                if cj.refs > 1 {
                    let Cell { tag, attr, refs, cap, payload } = cj;
                    self.put(j, Cell { tag, attr, refs: refs - 1, cap, payload });
                    proof {
                        lemma_live_count_keep(before, j as int, with_refs(cj, (refs - 1) as u32));
                        assert(self.cells() =~= before.update(
                            j as int,
                            Some(with_refs(cj, (refs - 1) as u32)),
                        ));
                        assert forall|x: int|
                            0 <= x < self.cells().len() && x != k && (#[trigger] self.cells()[x]) is Some implies self.cells()[x]->Some_0.refs
                                + count_in(ch, x) <= old(self).cells()[x]->Some_0.refs + count_in(work@, x) by {
                            assert(before[x] is Some);
                        }
                    }
                } else {
                    let ghost w1 = work@;
                    let mut more = owned_children(cj.payload);
                    let ghost m = more@;
                    work.append(&mut more);
                    proof {
                        assert(work@ == w1 + m);
                        assert forall|x: int|
                            0 <= x < self.cells().len() && x != k && (#[trigger] self.cells()[x]) is Some implies self.cells()[x]->Some_0.refs
                                + count_in(ch, x) <= old(self).cells()[x]->Some_0.refs + count_in(work@, x) by {
                            lemma_count_in_append(w1, m, x);
                            assert(before[x] is Some);
                        }
                    }
                }
            }
        }
        proof {
            assert forall|j: usize|
                j < self.cells().len() && j != k && #[trigger] ch.contains(j) && old(self).live(j)
                    && old(self).cell(j).refs == 1 implies self.cells()[j as int] is None by {
                lemma_count_in_contains(ch, j);
                if self.cells()[j as int] is Some {
                    assert(cell_ok(self.cells()[j as int]->Some_0));
                }
            }
        }
    }
}

impl Runtime {
    /// The cells below the old length, but the one at `k`, kept their shape: a slot that is
    /// still occupied holds the same payload under the same tag.
    pub open spec fn shapes_kept(&self, old: &Runtime, k: usize) -> bool {
        &&& self.cells().len() >= old.cells().len()
        &&& self.symbols() == old.symbols()
        &&& forall|j: int|
            0 <= j < old.cells().len() && j != k && (#[trigger] self.cells()[j]) is Some ==> {
                &&& old.cells()[j] is Some
                &&& same_shape(self.cells()[j]->Some_0, old.cells()[j]->Some_0)
            }
    }

    /// The list that was at `k` is now at `r`, after zero or more moves; every slot added
    /// since, but `r`, is empty again.
    pub open spec fn moved(&self, old: &Runtime, k: usize, r: usize) -> bool {
        &&& self.cells().len() >= old.cells().len()
        &&& (r == k || (old.cells().len() <= r < self.cells().len() && self.cells()[k as int] is None))
        &&& forall|j: int|
            old.cells().len() <= j < self.cells().len() && j != r ==> (#[trigger] self.cells()[j]) is None
    }

    /// A copy of the elements of a list of one scalar kind.
    pub fn items(&self, k: usize) -> (r: Vec<Scalar>)
        requires
            self.live(k),
        ensures
            r@ == list_items(self.cell(k)),
    {
        let mut r: Vec<Scalar> = Vec::new();
        match &self.cells[k] {
            Some(c) => match &c.payload {
                Payload::Items(v) => {
                    let mut i: usize = 0;
                    while i < v.len()
                        invariant
                            i <= v@.len(),
                            r@ == v@.subrange(0, i as int),
                        decreases v@.len() - i,
                    {
                        r.push(v[i]);
                        i = i + 1;
                        assert(r@ =~= v@.subrange(0, i as int));
                    }
                    assert(v@.subrange(0, v@.len() as int) =~= v@);
                },
                _ => {},
            },
            None => {},
        }
        r
    }

    /// A copy of the references that a cell holds.
    pub fn children(&self, k: usize) -> (r: Vec<usize>)
        requires
            self.live(k),
        ensures
            r@ == children(self.cell(k)),
    {
        match &self.cells[k] {
            Some(c) => match &c.payload {
                Payload::Mixed(v) => {
                    let mut r: Vec<usize> = Vec::new();
                    let mut i: usize = 0;
                    while i < v.len()
                        invariant
                            i <= v@.len(),
                            r@ == v@.subrange(0, i as int),
                        decreases v@.len() - i,
                    {
                        r.push(v[i]);
                        i = i + 1;
                        assert(r@ =~= v@.subrange(0, i as int));
                    }
                    assert(v@.subrange(0, v@.len() as int) =~= v@);
                    r
                },
                Payload::Pair(a, b) => {
                    let r = vec![*a, *b];
                    assert(r@ =~= seq![*a, *b]);
                    r
                },
                _ => Vec::new(),
            },
            None => Vec::new(),
        }
    }

    /// Appends the elements of one list of scalars to another of the same tag, then gives
    /// up the caller's reference to the second list.
    fn join_items(&mut self, k: usize, other: usize) -> (r: usize)
        requires
            old(self).wf(),
            old(self).live(k),
            old(self).live(other),
            k != other,
            is_list_tag(old(self).tag_of(k)),
            old(self).tag_of(other) == old(self).tag_of(k),
        ensures
            final(self).wf(),
            final(self).live(r),
            final(self).moved(old(self), k, r),
            final(self).symbols() == old(self).symbols(),
            final(self).cell(r).tag == old(self).cell(k).tag,
            final(self).cell(r).attr == old(self).cell(k).attr,
            final(self).cell(r).refs == old(self).cell(k).refs,
            list_items(final(self).cell(r)) == list_items(old(self).cell(k)) + list_items(
                old(self).cell(other),
            ),
            forall|j: int|
                0 <= j < old(self).cells().len() && j != k && j != other ==> #[trigger] final(self).cells()[j]
                    == old(self).cells()[j],
            old(self).cell(other).refs == 1 ==> final(self).cells()[other as int] is None,
            old(self).cell(other).refs > 1 ==> final(self).cells()[other as int] == Some(
                with_refs(old(self).cell(other), (old(self).cell(other).refs - 1) as u32),
            ),
    {
        let es = self.items(other);
        let ghost t = old(self).tag_of(k);
        let ghost ik = list_items(old(self).cell(k));
        let mut r = k;
        let mut i: usize = 0;
        while i < es.len()
            invariant
                self.wf(),
                self.live(r),
                r != other,
                k != other,
                old(self).wf(),
                old(self).live(k),
                old(self).live(other),
                i <= es@.len(),
                es@ == list_items(old(self).cell(other)),
                forall|x: int| 0 <= x < es@.len() ==> (#[trigger] es@[x]).kind_spec().list_tag() == t,
                t == old(self).tag_of(k),
                is_list_tag(t),
                self.tag_of(r) == t,
                self.cell(r).attr == old(self).cell(k).attr,
                self.cell(r).refs == old(self).cell(k).refs,
                list_items(self.cell(r)) == ik + es@.subrange(0, i as int),
                self.moved(old(self), k, r),
                self.symbols() == old(self).symbols(),
                forall|j: int|
                    0 <= j < old(self).cells().len() && j != k ==> #[trigger] self.cells()[j]
                        == old(self).cells()[j],
            decreases es@.len() - i,
        {
            proof {
                assert(old(self).cells()[other as int] == self.cells()[other as int]);
                assert(cell_ok(old(self).cell(other)));
                assert(list_items(old(self).cell(other))[i as int] == es@[i as int]);
            }
            let ghost before = *self;
            r = self.ja(r, es[i]);
            i = i + 1;
            proof {
                assert(ik + es@.subrange(0, i as int) =~= (ik + es@.subrange(0, i - 1)).push(es@[i - 1]));
                assert forall|j: int|
                    0 <= j < old(self).cells().len() && j != k implies #[trigger] self.cells()[j]
                        == old(self).cells()[j] by {
                    assert(before.cells()[j] == old(self).cells()[j]);
                }
            }
        }
        assert(es@.subrange(0, es@.len() as int) =~= es@);
        proof {
            assert(self.cells()[other as int] == old(self).cells()[other as int]);
        }
        let ghost before = *self;
        self.r0(other);
        proof {
            assert forall|j: int|
                0 <= j < old(self).cells().len() && j != k && j != other implies #[trigger] self.cells()[j]
                    == old(self).cells()[j] by {
                assert(before.cells()[j] == old(self).cells()[j]);
            }
        }
        r
    }
}

impl Runtime {
    /// Appends the elements of one mixed list to another. When the caller held the only
    /// reference to the second list, its elements move over and its shell is freed; else the
    /// second list keeps its elements and loses one reference, and each element gains one.
    fn join_mixed(&mut self, k: usize, other: usize) -> (r: usize)
        requires
            old(self).wf(),
            old(self).live(k),
            old(self).live(other),
            k != other,
            old(self).tag_of(k) == MIXED_LIST,
            old(self).tag_of(other) == MIXED_LIST,
        ensures
            final(self).wf(),
            final(self).live(r),
            final(self).moved(old(self), k, r),
            final(self).shapes_kept(old(self), k),
            final(self).cell(r).tag == MIXED_LIST,
            final(self).cell(r).attr == old(self).cell(k).attr,
            children(final(self).cell(r)) == children(old(self).cell(k)) + children(
                old(self).cell(other),
            ),
            old(self).cell(other).refs == 1 ==> final(self).cells()[other as int] is None,
            handed_over(final(self).cells(), old(self), k, other),
    {
        let es = self.children(other);
        let ghost ck = children(old(self).cell(k));
        let shared = self.ref_count(other) > 1;
        let oc = self.take(other);
        if shared {
            let Cell { tag, attr, refs, cap, payload } = oc;
            self.put(other, Cell { tag, attr, refs: refs - 1, cap, payload });
            let mut i: usize = 0;
            while i < es.len()
                invariant
                    self.wf(),
                    old(self).wf(),
                    old(self).live(k),
                    k != other,
                    i <= es@.len(),
                    self.cells().len() == old(self).cells().len(),
                    self.live(k),
                    same_shape(self.cell(k), old(self).cell(k)),
                    self.shapes_kept(old(self), k),
                    es@ == children(old(self).cell(other)),
                    old(self).live(other),
                    old(self).cell(other).refs > 1,
                    forall|j: int|
                        0 <= j < old(self).cells().len() && j != k && j != other ==> {
                            &&& (#[trigger] self.cells()[j] is Some <==> old(self).cells()[j] is Some)
                            &&& self.cells()[j] is Some ==> {
                                &&& same_shape(self.cells()[j]->Some_0, old(self).cells()[j]->Some_0)
                                &&& self.cells()[j]->Some_0.refs == sat_add(
                                    old(self).cells()[j]->Some_0.refs,
                                    count_in(es@.subrange(0, i as int), j),
                                )
                            }
                        },
                decreases es@.len() - i,
            {
                let e = es[i];
                let ghost pre = *self;
                proof {
                    assert(es@.subrange(0, i + 1).drop_last() =~= es@.subrange(0, i as int));
                }
                if self.is_live(e) {
                    let ghost before = *self;
                    self.r1(e);
                    proof {
                        assert forall|j: int|
                            0 <= j < old(self).cells().len() && j != k && j != other implies {
                                &&& (#[trigger] self.cells()[j] is Some <==> old(self).cells()[j] is Some)
                                &&& self.cells()[j] is Some ==> {
                                    &&& same_shape(self.cells()[j]->Some_0, old(self).cells()[j]->Some_0)
                                    &&& self.cells()[j]->Some_0.refs == sat_add(
                                        old(self).cells()[j]->Some_0.refs,
                                        count_in(es@.subrange(0, i + 1), j),
                                    )
                                }
                            } by {
                            assert(pre.cells()[j] is Some <==> old(self).cells()[j] is Some);
                            if j == e {
                                assert(count_in(es@.subrange(0, i + 1), j) == count_in(es@.subrange(0, i as int), j) + 1);
                            } else {
                                assert(count_in(es@.subrange(0, i + 1), j) == count_in(es@.subrange(0, i as int), j));
                            }
                        }
                        assert forall|j: int|
                            0 <= j < old(self).cells().len() && j != k && (#[trigger] self.cells()[j]) is Some implies {
                                &&& old(self).cells()[j] is Some
                                &&& same_shape(self.cells()[j]->Some_0, old(self).cells()[j]->Some_0)
                            } by {
                            assert(before.cells()[j] is Some);
                        }
                    }
                } else {
                    proof {
                        assert forall|j: int|
                            0 <= j < old(self).cells().len() && j != k && j != other implies {
                                &&& (#[trigger] self.cells()[j] is Some <==> old(self).cells()[j] is Some)
                                &&& self.cells()[j] is Some ==> {
                                    &&& same_shape(self.cells()[j]->Some_0, old(self).cells()[j]->Some_0)
                                    &&& self.cells()[j]->Some_0.refs == sat_add(
                                        old(self).cells()[j]->Some_0.refs,
                                        count_in(es@.subrange(0, i + 1), j),
                                    )
                                }
                            } by {
                            if j != e {
                                assert(count_in(es@.subrange(0, i + 1), j) == count_in(es@.subrange(0, i as int), j));
                            }
                        }
                    }
                }
                i = i + 1;
            }
            proof {
                assert(es@.subrange(0, es@.len() as int) =~= es@);
            }
        }
        let ghost mid = *self;
        proof {
            assert(handed_over(mid.cells(), old(self), k, other));
        }
        let mut r = k;
        let mut i: usize = 0;
        while i < es.len()
            invariant
                self.wf(),
                old(self).wf(),
                old(self).live(k),
                i <= es@.len(),
                self.live(r),
                self.tag_of(r) == MIXED_LIST,
                self.cell(r).attr == old(self).cell(k).attr,
                children(self.cell(r)) == ck + es@.subrange(0, i as int),
                self.moved(old(self), k, r),
                self.shapes_kept(old(self), k),
                !shared ==> self.cells()[other as int] is None,
                other < old(self).cells().len(),
                other != k,
                handed_over(mid.cells(), old(self), k, other),
                forall|j: int| 0 <= j < old(self).cells().len() && j != k ==> #[trigger] self.cells()[j] == mid.cells()[j],
            decreases es@.len() - i,
        {
            let ghost before = *self;
            r = self.jk(r, es[i]);
            i = i + 1;
            proof {
                assert(ck + es@.subrange(0, i as int) =~= (ck + es@.subrange(0, i - 1)).push(es@[i - 1]));
                assert forall|j: int|
                    0 <= j < old(self).cells().len() && j != k && (#[trigger] self.cells()[j]) is Some implies {
                        &&& old(self).cells()[j] is Some
                        &&& same_shape(self.cells()[j]->Some_0, old(self).cells()[j]->Some_0)
                    } by {
                    assert(before.cells()[j] == self.cells()[j]);
                }
                assert forall|j: int| 0 <= j < old(self).cells().len() && j != k implies #[trigger] self.cells()[j] == mid.cells()[j] by {
                    assert(before.cells()[j] == self.cells()[j]);
                }
            }
        }
        assert(es@.subrange(0, es@.len() as int) =~= es@);
        proof {
            assert forall|j: int|
                0 <= j < old(self).cells().len() && j != k && j != other implies #[trigger] self.cells()[j]
                    == mid.cells()[j] by {}
        }
        r
    }

    /// Appends the elements of one list to another of the same tag, and gives up the
    /// caller's reference to the second list without releasing the elements that moved.
    /// The first list may move to a fresh slot; the returned index is where it is now.
    pub fn jv(&mut self, k: usize, other: usize) -> (r: usize)
        requires
            old(self).wf(),
            old(self).live(k),
            old(self).live(other),
            k != other,
            is_list_tag(old(self).tag_of(k)) || old(self).tag_of(k) == MIXED_LIST,
            old(self).tag_of(other) == old(self).tag_of(k),
        ensures
            final(self).wf(),
            final(self).live(r),
            final(self).moved(old(self), k, r),
            final(self).shapes_kept(old(self), k),
            final(self).cell(r).tag == old(self).cell(k).tag,
            final(self).cell(r).attr == old(self).cell(k).attr,
            list_items(final(self).cell(r)) == list_items(old(self).cell(k)) + list_items(
                old(self).cell(other),
            ),
            children(final(self).cell(r)) == children(old(self).cell(k)) + children(
                old(self).cell(other),
            ),
            old(self).cell(other).refs == 1 ==> final(self).cells()[other as int] is None,
            old(self).tag_of(k) == MIXED_LIST ==> handed_over(final(self).cells(), old(self), k, other),
            is_list_tag(old(self).tag_of(k)) ==> {
                &&& final(self).cell(r).refs == old(self).cell(k).refs
                &&& forall|j: int|
                    0 <= j < old(self).cells().len() && j != k && j != other
                        ==> #[trigger] final(self).cells()[j] == old(self).cells()[j]
                &&& old(self).cell(other).refs > 1 ==> final(self).cells()[other as int] == Some(
                    with_refs(old(self).cell(other), (old(self).cell(other).refs - 1) as u32),
                )
            },
    {
        let t = self.tag(k);
        if t.0 == MIXED_LIST {
            let r = self.join_mixed(k, other);
            proof {
                assert(list_items(self.cell(r)) =~= Seq::<Scalar>::empty());
                assert(list_items(old(self).cell(k)) =~= Seq::<Scalar>::empty());
                assert(list_items(old(self).cell(other)) =~= Seq::<Scalar>::empty());
            }
            r
        } else {
            let r = self.join_items(k, other);
            proof {
                assert(children(self.cell(r)) =~= Seq::<usize>::empty());
                assert(children(old(self).cell(k)) =~= Seq::<usize>::empty());
                assert(children(old(self).cell(other)) =~= Seq::<usize>::empty());
            }
            r
        }
    }
}

impl Runtime {
    /// The scalar of an atom or error.
    pub fn atom(&self, k: usize) -> (r: Scalar)
        requires
            self.live(k),
            self.cell(k).payload is Atom,
        ensures
            r == atom_value(self.cell(k)),
    {
        match &self.cells[k] {
            Some(c) => match &c.payload {
                Payload::Atom(s) => *s,
                _ => Scalar::Boolean(false),
            },
            None => Scalar::Boolean(false),
        }
    }

    /// Overwrites the scalar of an atom with another of its kind.
    pub fn set_atom(&mut self, k: usize, s: Scalar)
        requires
            old(self).wf(),
            old(self).live(k),
            is_atom_tag(old(self).tag_of(k)),
            s.kind_spec().atom_tag() == old(self).tag_of(k),
        ensures
            final(self).wf(),
            final(self).cells() == old(self).cells().update(
                k as int,
                Some(
                    Cell {
                        tag: old(self).cell(k).tag,
                        attr: old(self).cell(k).attr,
                        refs: old(self).cell(k).refs,
                        cap: old(self).cell(k).cap,
                        payload: Payload::Atom(s),
                    },
                ),
            ),
            final(self).symbols() == old(self).symbols(),
    {
        let c = self.take(k);
        let Cell { tag, attr, refs, cap, payload: _ } = c;
        self.put(k, Cell { tag, attr, refs, cap, payload: Payload::Atom(s) });
    }

    /// The number of elements of a list.
    pub fn count(&self, k: usize) -> (r: usize)
        requires
            self.live(k),
        ensures
            r == list_len(self.cell(k)),
    {
        match &self.cells[k] {
            Some(c) => match &c.payload {
                Payload::Items(v) => v.len(),
                Payload::Mixed(v) => v.len(),
                _ => 0,
            },
            None => 0,
        }
    }

    /// The element at a position of a list of one scalar kind.
    pub fn item(&self, k: usize, i: usize) -> (r: Scalar)
        requires
            self.live(k),
            i < list_items(self.cell(k)).len(),
        ensures
            r == list_items(self.cell(k))[i as int],
    {
        match &self.cells[k] {
            Some(c) => match &c.payload {
                Payload::Items(v) => v[i],
                _ => Scalar::Boolean(false),
            },
            None => Scalar::Boolean(false),
        }
    }

    /// Overwrites the element at a position of a list of one scalar kind with another of
    /// its kind.
    pub fn set_item(&mut self, k: usize, i: usize, s: Scalar)
        requires
            old(self).wf(),
            old(self).live(k),
            is_list_tag(old(self).tag_of(k)),
            i < list_items(old(self).cell(k)).len(),
            s.kind_spec().list_tag() == old(self).tag_of(k),
        ensures
            final(self).wf(),
            final(self).live(k),
            final(self).cell(k).tag == old(self).cell(k).tag,
            final(self).cell(k).refs == old(self).cell(k).refs,
            list_items(final(self).cell(k)) == list_items(old(self).cell(k)).update(i as int, s),
            final(self).cells().len() == old(self).cells().len(),
            forall|j: int| 0 <= j < old(self).cells().len() && j != k ==> #[trigger] final(self).cells()[j] == old(self).cells()[j],
            final(self).symbols() == old(self).symbols(),
    {
        let c = self.take(k);
        let Cell { tag, attr, refs, cap, payload } = c;
        let mut v = match payload {
            Payload::Items(v) => v,
            _ => Vec::new(),
        };
        v.set(i, s);
        let nc = Cell { tag, attr, refs, cap, payload: Payload::Items(v) };
        assert forall|x: int| 0 <= x < v@.len() implies (#[trigger] v@[x]).kind_spec().list_tag() == tag by {
            if x != i {
                assert(v@[x] == list_items(c)[x]);
            }
        }
        self.put(k, nc);
    }

    /// The index of the value at a position of a mixed list, or of a dictionary's pair.
    pub fn child(&self, k: usize, i: usize) -> (r: usize)
        requires
            self.live(k),
            i < children(self.cell(k)).len(),
        ensures
            r == children(self.cell(k))[i as int],
    {
        match &self.cells[k] {
            Some(c) => match &c.payload {
                Payload::Mixed(v) => v[i],
                Payload::Pair(a, b) => if i == 0 {
                    *a
                } else {
                    *b
                },
                _ => 0,
            },
            None => 0,
        }
    }

    /// Compares two values as the store does: values with different tags differ, and atoms
    /// of one tag are equal when their scalars are. Only atoms can be compared with values
    /// of their own tag.
    pub fn atoms_equal(&self, a: usize, b: usize) -> (r: bool)
        requires
            self.wf(),
            self.live(a),
            self.live(b),
            self.tag_of(a) != self.tag_of(b) || is_atom_tag(self.tag_of(a)),
        ensures
            r == (self.tag_of(a) == self.tag_of(b) && atom_value(self.cell(a)) == atom_value(
                self.cell(b),
            )),
    {
        let ta = self.tag(a);
        let tb = self.tag(b);
        if ta.0 != tb.0 {
            return false;
        }
        proof {
            assert(cell_ok(self.cell(a)));
            assert(cell_ok(self.cell(b)));
        }
        let sa = self.atom(a);
        let sb = self.atom(b);
        sa == sb
    }

    /// Interns a text: the symbol of a text already in the table, else a new one.
    pub fn sn(&mut self, s: &str) -> (r: Symbol)
        requires
            old(self).wf(),
        ensures
            final(self).wf(),
            final(self).cells() == old(self).cells(),
            r.id() < final(self).symbols().len(),
            final(self).symbols()[r.id() as int] == s@,
            old(self).symbols().contains(s@) ==> final(self).symbols() == old(self).symbols(),
            !old(self).symbols().contains(s@) ==> final(self).symbols() == old(self).symbols().push(s@),
    {
        let owned = s.to_owned();
        let mut i: usize = 0;
        while i < self.symbols.len()
            invariant
                self.symbols() == old(self).symbols(),
                self.cells() == old(self).cells(),
                self.wf(),
                owned@ == s@,
                i <= self.symbols@.len(),
                forall|j: int| 0 <= j < i ==> self.symbols()[j] != s@,
            decreases self.symbols@.len() - i,
        {
            if self.symbols[i] == owned {
                return Symbol(i);
            }
            i = i + 1;
        }
        proof {
            assert(!old(self).symbols().contains(s@));
        }
        let n = self.symbols.len();
        self.symbols.push(owned);
        proof {
            assert(self.symbols() =~= old(self).symbols().push(s@));
        }
        Symbol(n)
    }

    /// The text of a symbol, if the symbol is one of this store.
    pub fn symbol_text(&self, sym: Symbol) -> (r: Option<&str>)
        ensures
            sym.id() < self.symbols().len() ==> (r matches Some(t) && t@ == self.symbols()[sym.id() as int]),
            sym.id() >= self.symbols().len() ==> r is None,
    {
        if sym.0 < self.symbols.len() {
            Some(self.symbols[sym.0].as_str())
        } else {
            None
        }
    }
}

/// Interning gives one symbol per text: two symbols of a well-formed store are equal
/// exactly when their texts are.
pub proof fn lemma_symbols_interned(rt: &Runtime, a: Symbol, b: Symbol)
    requires
        rt.wf(),
        a.id() < rt.symbols().len(),
        b.id() < rt.symbols().len(),
    ensures
        (a == b) <==> (rt.symbols()[a.id() as int] == rt.symbols()[b.id() as int]),
{
}

impl Runtime {
    /// Points a dictionary or table at its key list and value list after either moved.
    pub(crate) fn set_pair(&mut self, k: usize, keys: usize, values: usize)
        requires
            old(self).wf(),
            old(self).live(k),
            old(self).cell(k).payload is Pair,
        ensures
            final(self).wf(),
            final(self).cells() == old(self).cells().update(
                k as int,
                Some(
                    Cell {
                        tag: old(self).cell(k).tag,
                        attr: old(self).cell(k).attr,
                        refs: old(self).cell(k).refs,
                        cap: old(self).cell(k).cap,
                        payload: Payload::Pair(keys, values),
                    },
                ),
            ),
            final(self).symbols() == old(self).symbols(),
    {
        let c = self.take(k);
        let Cell { tag, attr, refs, cap, payload: _ } = c;
        self.put(k, Cell { tag, attr, refs, cap, payload: Payload::Pair(keys, values) });
    }

    /// Overwrites the tag of a dictionary to make it a table, or back.
    pub(crate) fn retag_pair(&mut self, k: usize, tag: KTypeCode)
        requires
            old(self).wf(),
            old(self).live(k),
            old(self).cell(k).payload is Pair,
            tag.0 == DICT || tag.0 == TABLE,
        ensures
            final(self).wf(),
            final(self).cells() == old(self).cells().update(
                k as int,
                Some(
                    Cell {
                        tag: tag.0,
                        attr: old(self).cell(k).attr,
                        refs: old(self).cell(k).refs,
                        cap: old(self).cell(k).cap,
                        payload: old(self).cell(k).payload,
                    },
                ),
            ),
            final(self).symbols() == old(self).symbols(),
    {
        let c = self.take(k);
        let Cell { tag: _, attr, refs, cap, payload } = c;
        self.put(k, Cell { tag: tag.0, attr, refs, cap, payload });
    }
}

/// The slots after atoms holding `vals` were made, one after another, from `cells`.
pub open spec fn with_atoms(cells: Seq<Option<Cell>>, vals: Seq<Scalar>) -> Seq<Option<Cell>>
    decreases vals.len(),
{
    if vals.len() == 0 {
        cells
    } else {
        with_atoms(cells, vals.drop_last()).push(Some(atom_cell(vals.last())))
    }
}

/// The slots after the values at `from`, `from + 1`, ..., `from + n - 1` were each freed.
pub open spec fn freed(cells: Seq<Option<Cell>>, from: int, n: nat) -> Seq<Option<Cell>>
    decreases n,
{
    if n == 0 {
        cells
    } else {
        freed(cells, from, (n - 1) as nat).update(from + n - 1, None)
    }
}

proof fn lemma_with_atoms_shape(cells: Seq<Option<Cell>>, vals: Seq<Scalar>)
    ensures
        with_atoms(cells, vals).len() == cells.len() + vals.len(),
        with_atoms(cells, vals).subrange(0, cells.len() as int) == cells,
        forall|i: int| 0 <= i < vals.len() ==> #[trigger] with_atoms(cells, vals)[cells.len() + i] == Some(atom_cell(vals[i])),
    decreases vals.len(),
{
    if vals.len() > 0 {
        lemma_with_atoms_shape(cells, vals.drop_last());
        let w = with_atoms(cells, vals);
        let p = with_atoms(cells, vals.drop_last());
        assert(w.subrange(0, cells.len() as int) =~= p.subrange(0, cells.len() as int));
        assert forall|i: int| 0 <= i < vals.len() implies #[trigger] w[cells.len() + i] == Some(atom_cell(vals[i])) by {
            if i < vals.len() - 1 {
                assert(p[cells.len() + i] == Some(atom_cell(vals.drop_last()[i])));
            }
        }
    }
}

proof fn lemma_freed_shape(cells: Seq<Option<Cell>>, from: int, n: nat)
    requires
        0 <= from,
        from + n <= cells.len(),
    ensures
        freed(cells, from, n).len() == cells.len(),
        forall|j: int| 0 <= j < cells.len() && !(from <= j < from + n) ==> #[trigger] freed(cells, from, n)[j] == cells[j],
        forall|j: int| from <= j < from + n ==> #[trigger] freed(cells, from, n)[j] is None,
    decreases n,
{
    if n > 0 {
        lemma_freed_shape(cells, from, (n - 1) as nat);
    }
}

/// Owned handles balance out: when atoms are made from a baseline and the handle of each is
/// released once, the values of the baseline are as they were, every added slot is empty,
/// and the number of live values is back to the baseline's.
pub proof fn lemma_ownership_balance(base: Seq<Option<Cell>>, vals: Seq<Scalar>)
    ensures
        freed(with_atoms(base, vals), base.len() as int, vals.len()) == base + Seq::new(
            vals.len(),
            |i: int| None::<Cell>,
        ),
        live_count(freed(with_atoms(base, vals), base.len() as int, vals.len())) == live_count(base),
{
    lemma_with_atoms_shape(base, vals);
    let w = with_atoms(base, vals);
    lemma_freed_shape(w, base.len() as int, vals.len());
    let f = freed(w, base.len() as int, vals.len());
    let target = base + Seq::new(vals.len(), |i: int| None::<Cell>);
    assert forall|j: int| 0 <= j < f.len() implies f[j] == target[j] by {
        if j < base.len() {
            assert(w.subrange(0, base.len() as int)[j] == base[j]);
        }
    }
    assert(f =~= target);
    lemma_live_count_trailing_empty(base, vals.len());
}

proof fn lemma_live_count_trailing_empty(base: Seq<Option<Cell>>, n: nat)
    ensures
        live_count(base + Seq::new(n, |i: int| None::<Cell>)) == live_count(base),
    decreases n,
{
    let s = base + Seq::new(n, |i: int| None::<Cell>);
    if n > 0 {
        assert(s.drop_last() =~= base + Seq::new((n - 1) as nat, |i: int| None::<Cell>));
        lemma_live_count_trailing_empty(base, (n - 1) as nat);
    } else {
        assert(s =~= base);
    }
}

/// Releasing an atom whose handle held its only reference frees exactly its slot.
pub proof fn lemma_release_sole_atom(before: &Runtime, after: &Runtime, k: usize)
    requires
        before.live(k),
        before.cell(k).refs == 1,
        before.cell(k).payload is Atom,
        after.released(before, k),
    ensures
        after.cells() == before.cells().update(k as int, None),
{
}

/// A borrowed handle never gives up a reference: taking a reference of one's own to the
/// borrowed value and releasing it again leaves the store exactly as it was, so the value's
/// count is back where it started, never below.
pub proof fn lemma_borrow_balanced(r0: &Runtime, r1: &Runtime, r2: &Runtime, k: usize)
    requires
        r0.wf(),
        r0.live(k),
        r0.cell(k).refs < u32::MAX,
        r1.cells() == r0.cells().update(k as int, Some(with_refs(r0.cell(k), (r0.cell(k).refs + 1) as u32))),
        r2.released(r1, k),
    ensures
        r2.cells() == r0.cells(),
        r2.cell(k).refs == r0.cell(k).refs,
{
    assert(r1.live(k));
    assert(r1.cell(k).refs > 1);
    assert(r2.cells() =~= r0.cells());
}

/// A list that moved zero or more times, then once more, has still moved from its start.
pub proof fn lemma_moved_step(
    start: &Runtime,
    before: &Runtime,
    after: &Runtime,
    k: usize,
    at: usize,
    now: usize,
)
    requires
        before.moved(start, k, at),
        after.relocated(before, at, now),
        after.unchanged_except(before, at),
        at < before.cells().len(),
        k < start.cells().len(),
    ensures
        after.moved(start, k, now),
{
    assert forall|j: int|
        start.cells().len() <= j < after.cells().len() && j != now implies (#[trigger] after.cells()[j]) is None by {
        if j < before.cells().len() && j != at {
            assert(after.cells()[j] == before.cells()[j]);
        }
    }
    if at != k {
        assert(after.cells()[k as int] == before.cells()[k as int]);
    }
}

} // verus!
