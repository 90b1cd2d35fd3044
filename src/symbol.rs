//! Symbols: interned strings.
use vstd::prelude::*;
use vstd::string::StringSliceAdditionalSpecFns;

use crate::error::ConversionError;
use crate::raw::Runtime;

verus! {

/// An interned string. Two symbols of one store are equal exactly when their texts are.
#[derive(Clone, Copy, Debug, PartialEq, Eq, Hash, Structural)]
pub struct Symbol(pub usize);

/// Why a text cannot become a symbol.
#[derive(Clone, Copy, Debug, PartialEq, Eq, Structural)]
pub enum SymbolError {
    /// The text holds a NUL byte at this index; the store would cut the text there.
    InternalNul(usize),
    /// The text is longer than the largest length a symbol can have.
    StringTooLong(usize),
}

/// The largest length of a symbol, in bytes.
pub const MAX_SYMBOL_LEN: usize = isize::MAX as usize;

/// No byte before position `i` is NUL.
pub open spec fn no_nul_before(b: Seq<u8>, i: int) -> bool {
    forall|j: int| 0 <= j < i ==> b[j] != 0
}

/// A text can become a symbol: it is short enough and holds no NUL byte.
pub open spec fn valid_symbol_text(s: &str) -> bool {
    s.spec_bytes().len() <= MAX_SYMBOL_LEN && no_nul_before(s.spec_bytes(), s.spec_bytes().len() as int)
}

impl Symbol {
    /// The position of the symbol's text in the store's symbol table.
    pub open spec fn id(self) -> usize {
        self.0
    }

    /// Interns a text. A text that is too long, or that holds a NUL byte, is refused.
    pub fn new(rt: &mut Runtime, st: &str) -> (r: Result<Symbol, SymbolError>)
        requires
            old(rt).wf(),
        ensures
            final(rt).wf(),
            final(rt).cells() == old(rt).cells(),
            r is Ok <==> valid_symbol_text(st),
            st.spec_bytes().len() > MAX_SYMBOL_LEN ==> r == Err::<Symbol, SymbolError>(
                SymbolError::StringTooLong(st.spec_bytes().len() as usize),
            ),
            st.spec_bytes().len() <= MAX_SYMBOL_LEN && !valid_symbol_text(st) ==> (r matches Err(
                SymbolError::InternalNul(i),
            ) && i < st.spec_bytes().len() && st.spec_bytes()[i as int] == 0 && no_nul_before(
                st.spec_bytes(),
                i as int,
            )),
            r matches Err(SymbolError::InternalNul(i)) ==> i < st.spec_bytes().len()
                && st.spec_bytes()[i as int] == 0 && no_nul_before(st.spec_bytes(), i as int),
            r matches Ok(sym) ==> sym.id() < final(rt).symbols().len() && final(rt).symbols()[sym.id() as int]
                == st@,
            r is Err ==> final(rt).symbols() == old(rt).symbols(),
            old(rt).symbols().contains(st@) ==> final(rt).symbols() == old(rt).symbols(),
            r is Ok && !old(rt).symbols().contains(st@) ==> final(rt).symbols() == old(rt).symbols().push(st@),
    {
        let b = st.as_bytes();
        let n = b.len();
        if n > MAX_SYMBOL_LEN {
            return Err(SymbolError::StringTooLong(n));
        }
        let mut i: usize = 0;
        while i < b.len()
            invariant
                b@ == st.spec_bytes(),
                *rt == *old(rt),
                rt.wf(),
                n == st.spec_bytes().len(),
                n <= MAX_SYMBOL_LEN,
                i <= b@.len(),
                no_nul_before(b@, i as int),
            decreases b@.len() - i,
        {
            if b[i] == 0 {
                return Err(SymbolError::InternalNul(i));
            }
            i = i + 1;
        }
        Ok(rt.sn(st))
    }

    /// The text of the symbol, when it is one of this store's.
    pub fn try_as_str<'a>(&self, rt: &'a Runtime) -> (r: Result<&'a str, ConversionError>)
        ensures
            self.id() < rt.symbols().len() ==> (r matches Ok(t) && t@ == rt.symbols()[self.id() as int]),
            self.id() >= rt.symbols().len() ==> r == Err::<&str, ConversionError>(
                ConversionError::InvalidString,
            ),
    {
        match rt.symbol_text(*self) {
            Some(t) => Ok(t),
            None => Err(ConversionError::InvalidString),
        }
    }

    /// The text of a symbol that is one of this store's.
    pub fn as_str_unchecked<'a>(&self, rt: &'a Runtime) -> (r: &'a str)
        requires
            self.id() < rt.symbols().len(),
        ensures
            r@ == rt.symbols()[self.id() as int],
    {
        rt.symbol_text(*self).unwrap()
    }
}

/// Interns a text that is known to be a valid symbol text.
pub fn symbol(rt: &mut Runtime, s: &str) -> (r: Symbol)
    requires
        old(rt).wf(),
        valid_symbol_text(s),
    ensures
        final(rt).wf(),
        final(rt).cells() == old(rt).cells(),
        r.id() < final(rt).symbols().len(),
        final(rt).symbols()[r.id() as int] == s@,
        old(rt).symbols().contains(s@) ==> final(rt).symbols() == old(rt).symbols(),
        !old(rt).symbols().contains(s@) ==> final(rt).symbols() == old(rt).symbols().push(s@),
{
    match Symbol::new(rt, s) {
        Ok(sym) => sym,
        Err(_) => Symbol(0),
    }
}

} // verus!
