//! Error values: a message symbol under the error tag.
use vstd::prelude::*;
use vstd::string::StringSliceAdditionalSpecFns;

use crate::error::Error;
use crate::k_type::{KTypeCode, ERROR};
use crate::kbox::{holds, KBox};
use crate::raw::{atom_value, Runtime, Scalar};
use crate::symbol::{no_nul_before, valid_symbol_text, Symbol, SymbolError, MAX_SYMBOL_LEN};
use crate::type_traits::{KObject, KTyped};

verus! {

/// The view of an error value.
pub struct KError {
    k: usize,
}

impl View for KError {
    type V = usize;

    closed spec fn view(&self) -> usize {
        self.k
    }
}

impl KObject for KError {
    fn k_ptr(&self) -> (r: usize) {
        self.k
    }

    fn from_ptr(k: usize) -> (r: Self) {
        KError { k }
    }
}

impl KTyped for KError {
    open spec fn k_type_spec() -> i8 {
        ERROR
    }

    fn k_type() -> (r: KTypeCode) {
        KTypeCode(ERROR)
    }
}

/// The message symbol of the error at `k`.
pub open spec fn error_symbol(rt: &Runtime, k: usize) -> Symbol {
    match atom_value(rt.cell(k)) {
        Scalar::Symbol(s) => s,
        _ => Symbol(0),
    }
}

impl KBox<KError> {
    /// A new error with the given message. The message is interned as a symbol, stored
    /// as a symbol atom, and the atom's tag then becomes the error tag. A message that
    /// cannot be a symbol is refused, and nothing is stored.
    pub fn new_error(rt: &mut Runtime, msg: &str) -> (r: Result<Self, SymbolError>)
        requires
            old(rt).wf(),
        ensures
            final(rt).wf(),
            r is Ok <==> valid_symbol_text(msg),
            r matches Err(e) ==> final(rt).cells() == old(rt).cells() && final(rt).symbols() == old(rt).symbols() && (msg.spec_bytes().len() <= MAX_SYMBOL_LEN
                ==> (e matches SymbolError::InternalNul(i) && i < msg.spec_bytes().len()
                && msg.spec_bytes()[i as int] == 0 && no_nul_before(msg.spec_bytes(), i as int))),
            r matches Ok(b) ==> {
                &&& holds::<KError>(final(rt), b@)
                &&& final(rt).cell(b@).refs == 1
                &&& error_symbol(final(rt), b@).id() < final(rt).symbols().len()
                &&& final(rt).symbols()[error_symbol(final(rt), b@).id() as int] == msg@
                &&& final(rt).cells().drop_last() == old(rt).cells()
                &&& b@ == old(rt).cells().len()
            },
    {
        match Symbol::new(rt, msg) {
            Ok(sym) => {
                let k = rt.krr(sym);
                Ok(KBox::from_index(k))
            },
            Err(e) => Err(e),
        }
    }

    /// Turns the error value into a query error carrying its message, and gives up the
    /// handle's reference.
    pub fn into_error(self, rt: &mut Runtime) -> (r: Error)
        requires
            old(rt).wf(),
            holds::<KError>(old(rt), self@),
        ensures
            final(rt).wf(),
            final(rt).released(old(rt), self@),
            error_symbol(old(rt), self@).id() < old(rt).symbols().len() ==> (r matches Error::QError(m)
                && m@ == old(rt).symbols()[error_symbol(old(rt), self@).id() as int]),
            error_symbol(old(rt), self@).id() >= old(rt).symbols().len() ==> r == Error::UnknownQError,
    {
        let e = match self.as_ref().message(rt) {
            Some(t) => Error::QError(t.to_owned()),
            None => Error::UnknownQError,
        };
        self.release(rt);
        e
    }
}

impl KError {
    /// The message of the error.
    pub fn message<'a>(&self, rt: &'a Runtime) -> (r: Option<&'a str>)
        requires
            rt.wf(),
            holds::<KError>(rt, self@),
        ensures
            error_symbol(rt, self@).id() < rt.symbols().len() ==> (r matches Some(t) && t@
                == rt.symbols()[error_symbol(rt, self@).id() as int]),
            error_symbol(rt, self@).id() >= rt.symbols().len() ==> r is None,
    {
        proof {
            assert(crate::raw::cell_ok(rt.cell(self@)));
        }
        match rt.atom(self.k) {
            Scalar::Symbol(s) => rt.symbol_text(s),
            _ => None,
        }
    }
}

} // verus!
