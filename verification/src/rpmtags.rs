//! Tag numbers and value types of RPM header entries.
use vstd::prelude::*;

verus! {

// The tags of the entries that fill a field of the package record.
pub const RPMTAG_NAME: i32 = 1000;

pub const RPMTAG_VERSION: i32 = 1001;

pub const RPMTAG_RELEASE: i32 = 1002;

pub const RPMTAG_EPOCH: i32 = 1003;

pub const RPMTAG_SIZE: i32 = 1009;

pub const RPMTAG_VENDOR: i32 = 1011;

pub const RPMTAG_LICENSE: i32 = 1014;

pub const RPMTAG_ARCH: i32 = 1022;

pub const RPMTAG_SOURCERPM: i32 = 1044;

pub const RPMTAG_PROVIDENAME: i32 = 1047;

pub const RPMTAG_REQUIRENAME: i32 = 1049;

pub const RPMTAG_DIRINDEXES: i32 = 1116;

pub const RPMTAG_BASENAMES: i32 = 1117;

pub const RPMTAG_DIRNAMES: i32 = 1118;

pub const RPMTAG_MODULARITYLABEL: i32 = 5096;

// The codes of the value types.
pub const RPM_NULL_TYPE: u32 = 0;

pub const RPM_CHAR_TYPE: u32 = 1;

pub const RPM_INT8_TYPE: u32 = 2;

pub const RPM_INT16_TYPE: u32 = 3;

pub const RPM_INT32_TYPE: u32 = 4;

pub const RPM_INT64_TYPE: u32 = 5;

pub const RPM_STRING_TYPE: u32 = 6;

pub const RPM_BIN_TYPE: u32 = 7;

pub const RPM_STRING_ARRAY_TYPE: u32 = 8;

pub const RPM_I18NSTRING_TYPE: u32 = 9;

/// How the bytes of an entry's value are to be read.
#[derive(Clone, Copy, Debug, PartialEq, Eq, Structural)]
pub enum TypeTag {
    Null,
    Char,
    Int8,
    Int16,
    Int32,
    Int64,
    String,
    Bin,
    StringArray,
    I18NString,
}

impl TypeTag {
    /// The type that a type code stands for, if any.
    pub open spec fn spec_from_code(code: u32) -> Option<TypeTag> {
        if code == RPM_NULL_TYPE {
            Some(TypeTag::Null)
        } else if code == RPM_CHAR_TYPE {
            Some(TypeTag::Char)
        } else if code == RPM_INT8_TYPE {
            Some(TypeTag::Int8)
        } else if code == RPM_INT16_TYPE {
            Some(TypeTag::Int16)
        } else if code == RPM_INT32_TYPE {
            Some(TypeTag::Int32)
        } else if code == RPM_INT64_TYPE {
            Some(TypeTag::Int64)
        } else if code == RPM_STRING_TYPE {
            Some(TypeTag::String)
        } else if code == RPM_BIN_TYPE {
            Some(TypeTag::Bin)
        } else if code == RPM_STRING_ARRAY_TYPE {
            Some(TypeTag::StringArray)
        } else if code == RPM_I18NSTRING_TYPE {
            Some(TypeTag::I18NString)
        } else {
            None
        }
    }

    /// Looks up the type that a type code stands for.
    pub fn from_code(code: u32) -> (r: Option<TypeTag>)
        ensures
            r == Self::spec_from_code(code),
    {
        if code == RPM_NULL_TYPE {
            Some(TypeTag::Null)
        } else if code == RPM_CHAR_TYPE {
            Some(TypeTag::Char)
        } else if code == RPM_INT8_TYPE {
            Some(TypeTag::Int8)
        } else if code == RPM_INT16_TYPE {
            Some(TypeTag::Int16)
        } else if code == RPM_INT32_TYPE {
            Some(TypeTag::Int32)
        } else if code == RPM_INT64_TYPE {
            Some(TypeTag::Int64)
        } else if code == RPM_STRING_TYPE {
            Some(TypeTag::String)
        } else if code == RPM_BIN_TYPE {
            Some(TypeTag::Bin)
        } else if code == RPM_STRING_ARRAY_TYPE {
            Some(TypeTag::StringArray)
        } else if code == RPM_I18NSTRING_TYPE {
            Some(TypeTag::I18NString)
        } else {
            None
        }
    }

    /// The code under which the type is stored.
    pub open spec fn spec_code(self) -> u32 {
        match self {
            TypeTag::Null => RPM_NULL_TYPE,
            TypeTag::Char => RPM_CHAR_TYPE,
            TypeTag::Int8 => RPM_INT8_TYPE,
            TypeTag::Int16 => RPM_INT16_TYPE,
            TypeTag::Int32 => RPM_INT32_TYPE,
            TypeTag::Int64 => RPM_INT64_TYPE,
            TypeTag::String => RPM_STRING_TYPE,
            TypeTag::Bin => RPM_BIN_TYPE,
            TypeTag::StringArray => RPM_STRING_ARRAY_TYPE,
            TypeTag::I18NString => RPM_I18NSTRING_TYPE,
        }
    }

    /// Gives the code under which the type is stored.
    pub fn code(self) -> (r: u32)
        ensures
            r == self.spec_code(),
            Self::spec_from_code(r) == Some(self),
    {
        match self {
            TypeTag::Null => RPM_NULL_TYPE,
            TypeTag::Char => RPM_CHAR_TYPE,
            TypeTag::Int8 => RPM_INT8_TYPE,
            TypeTag::Int16 => RPM_INT16_TYPE,
            TypeTag::Int32 => RPM_INT32_TYPE,
            TypeTag::Int64 => RPM_INT64_TYPE,
            TypeTag::String => RPM_STRING_TYPE,
            TypeTag::Bin => RPM_BIN_TYPE,
            TypeTag::StringArray => RPM_STRING_ARRAY_TYPE,
            TypeTag::I18NString => RPM_I18NSTRING_TYPE,
        }
    }

    /// The number of bytes that `count` elements take, for the types of
    /// fixed width; strings have none.
    pub open spec fn spec_fixed_size(self, count: u32) -> Option<int> {
        match self {
            TypeTag::Null => Some(0),
            TypeTag::Char => Some(count as int),
            TypeTag::Int8 => Some(count as int),
            TypeTag::Int16 => Some(2 * count),
            TypeTag::Int32 => Some(4 * count),
            TypeTag::Int64 => Some(8 * count),
            TypeTag::Bin => Some(count as int),
            TypeTag::String => None,
            TypeTag::StringArray => None,
            TypeTag::I18NString => None,
        }
    }

    /// Computes the number of bytes that `count` elements take.
    pub fn fixed_size(self, count: u32) -> (r: Option<u64>)
        ensures
            r is Some == self.spec_fixed_size(count) is Some,
            r matches Some(w) ==> self.spec_fixed_size(count) == Some(w as int),
    {
        let n: u64 = count as u64;
        match self {
            TypeTag::Null => Some(0),
            TypeTag::Char => Some(n),
            TypeTag::Int8 => Some(n),
            TypeTag::Int16 => Some(2 * n),
            TypeTag::Int32 => Some(4 * n),
            TypeTag::Int64 => Some(8 * n),
            TypeTag::Bin => Some(n),
            TypeTag::String => None,
            TypeTag::StringArray => None,
            TypeTag::I18NString => None,
        }
    }
}

} // verus!
