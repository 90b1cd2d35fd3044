//! The registry of type tags.
use vstd::prelude::*;

verus! {

/// A scalar kind. Each kind has an atom tag and a list tag of the same magnitude.
#[derive(Clone, Copy, Debug, PartialEq, Eq, Structural)]
pub enum TypeCode {
    Boolean,
    Guid,
    Byte,
    Short,
    Int,
    Long,
    Real,
    Float,
    Char,
    Symbol,
    Timestamp,
    Month,
    Date,
    DateTime,
    Timespan,
    Minute,
    Second,
    Time,
}

/// A runtime type tag: negative for atoms, positive for lists, zero for a mixed list.
#[derive(Clone, Copy, Debug, PartialEq, Eq, Structural)]
pub struct KTypeCode(pub i8);

/// The tag of a mixed list, whose elements are values of any type.
pub const MIXED_LIST: i8 = 0;
/// The tag of a table.
pub const TABLE: i8 = 98;
/// The tag of a dictionary.
pub const DICT: i8 = 99;
/// The tag of an error.
pub const ERROR: i8 = -128;

/// The size in bytes of a reference to another stored value.
pub const POINTER_SIZE: usize = 8;

impl TypeCode {
    /// The magnitude shared by the atom tag and the list tag of this kind.
    pub open spec fn code_spec(self) -> i8 {
        match self {
            TypeCode::Boolean => 1i8,
            TypeCode::Guid => 2i8,
            TypeCode::Byte => 4i8,
            TypeCode::Short => 5i8,
            TypeCode::Int => 6i8,
            TypeCode::Long => 7i8,
            TypeCode::Real => 8i8,
            TypeCode::Float => 9i8,
            TypeCode::Char => 10i8,
            TypeCode::Symbol => 11i8,
            TypeCode::Timestamp => 12i8,
            TypeCode::Month => 13i8,
            TypeCode::Date => 14i8,
            TypeCode::DateTime => 15i8,
            TypeCode::Timespan => 16i8,
            TypeCode::Minute => 17i8,
            TypeCode::Second => 18i8,
            TypeCode::Time => 19i8,
        }
    }

    /// The magnitude shared by the atom tag and the list tag of this kind.
    pub fn code(self) -> (r: i8)
        ensures
            r == self.code_spec(),
    {
        match self {
            TypeCode::Boolean => 1,
            TypeCode::Guid => 2,
            TypeCode::Byte => 4,
            TypeCode::Short => 5,
            TypeCode::Int => 6,
            TypeCode::Long => 7,
            TypeCode::Real => 8,
            TypeCode::Float => 9,
            TypeCode::Char => 10,
            TypeCode::Symbol => 11,
            TypeCode::Timestamp => 12,
            TypeCode::Month => 13,
            TypeCode::Date => 14,
            TypeCode::DateTime => 15,
            TypeCode::Timespan => 16,
            TypeCode::Minute => 17,
            TypeCode::Second => 18,
            TypeCode::Time => 19,
        }
    }

    /// The kind whose tags have the given magnitude, if there is one.
    pub open spec fn from_code_spec(c: i8) -> Option<TypeCode> {
        if c == 1i8 {
            Some(TypeCode::Boolean)
        } else if c == 2i8 {
            Some(TypeCode::Guid)
        } else if c == 4i8 {
            Some(TypeCode::Byte)
        } else if c == 5i8 {
            Some(TypeCode::Short)
        } else if c == 6i8 {
            Some(TypeCode::Int)
        } else if c == 7i8 {
            Some(TypeCode::Long)
        } else if c == 8i8 {
            Some(TypeCode::Real)
        } else if c == 9i8 {
            Some(TypeCode::Float)
        } else if c == 10i8 {
            Some(TypeCode::Char)
        } else if c == 11i8 {
            Some(TypeCode::Symbol)
        } else if c == 12i8 {
            Some(TypeCode::Timestamp)
        } else if c == 13i8 {
            Some(TypeCode::Month)
        } else if c == 14i8 {
            Some(TypeCode::Date)
        } else if c == 15i8 {
            Some(TypeCode::DateTime)
        } else if c == 16i8 {
            Some(TypeCode::Timespan)
        } else if c == 17i8 {
            Some(TypeCode::Minute)
        } else if c == 18i8 {
            Some(TypeCode::Second)
        } else if c == 19i8 {
            Some(TypeCode::Time)
        } else {
            None
        }
    }

    /// The kind whose tags have the given magnitude, if there is one.
    pub fn from_code(c: i8) -> (r: Option<TypeCode>)
        ensures
            r == Self::from_code_spec(c),
            r matches Some(k) ==> k.code_spec() == c,
    {
        match c {
            1 => Some(TypeCode::Boolean),
            2 => Some(TypeCode::Guid),
            4 => Some(TypeCode::Byte),
            5 => Some(TypeCode::Short),
            6 => Some(TypeCode::Int),
            7 => Some(TypeCode::Long),
            8 => Some(TypeCode::Real),
            9 => Some(TypeCode::Float),
            10 => Some(TypeCode::Char),
            11 => Some(TypeCode::Symbol),
            12 => Some(TypeCode::Timestamp),
            13 => Some(TypeCode::Month),
            14 => Some(TypeCode::Date),
            15 => Some(TypeCode::DateTime),
            16 => Some(TypeCode::Timespan),
            17 => Some(TypeCode::Minute),
            18 => Some(TypeCode::Second),
            19 => Some(TypeCode::Time),
            _ => None,
        }
    }

    /// The tag of a list of this kind.
    pub open spec fn list_tag(self) -> i8 {
        self.code_spec()
    }

    /// The tag of an atom of this kind.
    pub open spec fn atom_tag(self) -> i8 {
        (-self.code_spec()) as i8
    }

    /// The tag of a list of this kind.
    pub fn as_list(self) -> (r: KTypeCode)
        ensures
            r.0 == self.list_tag(),
            1 <= r.0 <= 19,
    {
        KTypeCode(self.code())
    }

    /// The tag of an atom of this kind.
    pub fn as_atom(self) -> (r: KTypeCode)
        ensures
            r.0 == self.atom_tag(),
            r.0 == -self.list_tag(),
            -19 <= r.0 <= -1,
    {
        KTypeCode(-self.code())
    }
}

/// Whether a tag is the atom tag of some scalar kind.
pub open spec fn is_atom_tag(t: i8) -> bool {
    -19 <= t <= -1 && t != -3
}

/// Whether a tag is the list tag of some scalar kind.
pub open spec fn is_list_tag(t: i8) -> bool {
    1 <= t <= 19 && t != 3
}

/// The size in bytes of one element of a list with this tag, or of an atom's payload.
pub open spec fn atom_size_spec(t: i8) -> Option<usize> {
    let m = if t < 0 { -t } else { t as int };
    if m == 1 || m == 4 || m == 10 {
        Some(1usize)
    } else if m == 5 {
        Some(2usize)
    } else if m == 6 || m == 8 || m == 13 || m == 14 || m == 17 || m == 18 || m == 19 {
        Some(4usize)
    } else if m == 2 {
        Some(16usize)
    } else if m == 7 || m == 9 || m == 12 || m == 15 || m == 16 {
        Some(8usize)
    } else if m == 11 || t == MIXED_LIST || t == TABLE || t == DICT || t == ERROR {
        Some(POINTER_SIZE)
    } else {
        None
    }
}

/// The human-readable name of a tag.
pub open spec fn tag_name(t: i8) -> Seq<char> {
    match t {
        MIXED_LIST => "mixed list"@,
        -1 => "boolean atom"@,
        -2 => "guid atom"@,
        -4 => "byte atom"@,
        -5 => "short atom"@,
        -6 => "int atom"@,
        -7 => "long atom"@,
        -8 => "real atom"@,
        -9 => "float atom"@,
        -10 => "char atom"@,
        -11 => "symbol atom"@,
        -12 => "timestamp atom"@,
        -13 => "month atom"@,
        -14 => "date atom"@,
        -15 => "dateTime atom"@,
        -16 => "timespan atom"@,
        -17 => "minute atom"@,
        -18 => "second atom"@,
        -19 => "time atom"@,
        1 => "boolean list"@,
        2 => "guid list"@,
        4 => "byte list"@,
        5 => "short list"@,
        6 => "int list"@,
        7 => "long list"@,
        8 => "real list"@,
        9 => "float list"@,
        10 => "char list"@,
        11 => "symbol list"@,
        12 => "timestamp list"@,
        13 => "month list"@,
        14 => "date list"@,
        15 => "datetime list"@,
        16 => "timespan list"@,
        17 => "minute list"@,
        18 => "second list"@,
        19 => "time list"@,
        TABLE => "table"@,
        DICT => "dict"@,
        ERROR => "error"@,
        _ => "Unknown"@,
    }
}

impl KTypeCode {
    /// Whether the tag is one this registry knows.
    pub open spec fn is_known(self) -> bool {
        atom_size_spec(self.0) is Some
    }

    /// The size in bytes of one element of a list with this tag, or of an atom's payload.
    /// The tag must be a known one: an unknown tag here is a broken invariant, not an input error.
    pub fn atom_size(self) -> (r: usize)
        requires
            self.is_known(),
        ensures
            atom_size_spec(self.0) == Some(r),
    {
        let m: i8 = if self.0 == ERROR {
            ERROR
        } else if self.0 < 0 {
            -self.0
        } else {
            self.0
        };
        match m {
            1 | 4 | 10 => 1,
            5 => 2,
            6 | 8 | 13 | 14 | 17 | 18 | 19 => 4,
            2 => 16,
            7 | 9 | 12 | 15 | 16 => 8,
            _ => POINTER_SIZE,
        }
    }

    /// A human-readable name for the tag.
    pub fn name(self) -> (r: &'static str)
        ensures
            r@ == tag_name(self.0),
    {
        match self.0 {
            MIXED_LIST => "mixed list",
            -1 => "boolean atom",
            -2 => "guid atom",
            -4 => "byte atom",
            -5 => "short atom",
            -6 => "int atom",
            -7 => "long atom",
            -8 => "real atom",
            -9 => "float atom",
            -10 => "char atom",
            -11 => "symbol atom",
            -12 => "timestamp atom",
            -13 => "month atom",
            -14 => "date atom",
            -15 => "dateTime atom",
            -16 => "timespan atom",
            -17 => "minute atom",
            -18 => "second atom",
            -19 => "time atom",
            1 => "boolean list",
            2 => "guid list",
            4 => "byte list",
            5 => "short list",
            6 => "int list",
            7 => "long list",
            8 => "real list",
            9 => "float list",
            10 => "char list",
            11 => "symbol list",
            12 => "timestamp list",
            13 => "month list",
            14 => "date list",
            15 => "datetime list",
            16 => "timespan list",
            17 => "minute list",
            18 => "second list",
            19 => "time list",
            TABLE => "table",
            DICT => "dict",
            ERROR => "error",
            _ => "Unknown",
        }
    }

    /// The tag as a plain integer.
    pub fn to_i32(self) -> (r: i32)
        ensures
            r == self.0 as i32,
    {
        self.0 as i32
    }
}

/// An atom tag is the negation of the list tag of the same kind.
pub proof fn lemma_atom_tag_negates_list_tag(k: TypeCode)
    ensures
        k.atom_tag() == -k.list_tag(),
        is_atom_tag(k.atom_tag()),
        is_list_tag(k.list_tag()),
        TypeCode::from_code_spec(k.list_tag()) == Some(k),
{
}

} // verus!
