//! A memory-safe, statically typed view of a dynamically typed, reference-counted
//! value store in the style of the kdb+ runtime.
//!
//! Every stored value carries a type tag and a reference count. Handles give typed
//! access to stored values: `KBox` owns one reference, `Unowned` borrows one. A
//! downcast from `Any` checks the tag before it grants a typed view.

pub mod atom;
pub mod attr;
pub mod connection;
pub mod date_time_types;
pub mod dictionary;
pub mod error;
pub mod guid;
pub mod k_error;
pub mod k_type;
pub mod kbox;
pub mod list;
pub mod raw;
pub mod serialization;
pub mod symbol;
pub mod table;
pub mod type_traits;

pub use atom::Atom;
pub use attr::Attr;
pub use connection::Connection;
pub use date_time_types::{Date, Minute, Month, Second, Time, Timespan, Timestamp};
pub use dictionary::Dictionary;
pub use error::{ConnectionError, ConversionError, Error};
pub use guid::Guid;
pub use k_error::KError;
pub use k_type::{KTypeCode, TypeCode};
pub use kbox::{Any, KBox, Unowned};
pub use list::{KMixedList, List};
pub use raw::{Runtime, Scalar};
pub use serialization::SerializationMode;
pub use symbol::{symbol, Symbol, SymbolError};
pub use table::Table;
pub use type_traits::{KObject, KTyped, KValue};
