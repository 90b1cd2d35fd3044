//! Serialization modes of the store's own encoding.
use vstd::prelude::*;

verus! {

/// How the store's encoder serializes a value.
#[derive(Clone, Copy, Debug, PartialEq, Eq, Structural)]
pub enum SerializationMode {
    /// Within one process (version 3.0 and later).
    InProc,
    /// Unenumerate, and refuse timespans and timestamps (for versions before 2.6).
    Unenumerate,
    /// Keep enumerations, allow timespans and timestamps: for passing data between threads.
    Enumerate,
    /// Unenumerate, allow timespans and timestamps.
    UnenumerateWithTimestamps,
    /// Unenumerate, compress, allow timespans and timestamps.
    Compress,
}

impl SerializationMode {
    /// The mode's code in the encoder's interface.
    pub fn code(self) -> (r: i32)
        ensures
            -1 <= r <= 3,
            self == SerializationMode::InProc <==> r == -1,
            self == SerializationMode::Unenumerate <==> r == 0,
            self == SerializationMode::Enumerate <==> r == 1,
            self == SerializationMode::UnenumerateWithTimestamps <==> r == 2,
            self == SerializationMode::Compress <==> r == 3,
    {
        match self {
            SerializationMode::InProc => -1,
            SerializationMode::Unenumerate => 0,
            SerializationMode::Enumerate => 1,
            SerializationMode::UnenumerateWithTimestamps => 2,
            SerializationMode::Compress => 3,
        }
    }
}

} // verus!
