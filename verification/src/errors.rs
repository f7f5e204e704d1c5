//! What can go wrong while a database image is read.
use crate::rpmtags::TypeTag;
use vstd::prelude::*;

verus! {

/// A violation of the header blob's own structure.
#[derive(Clone, Copy, Debug, PartialEq, Eq, Structural)]
pub enum BlobFault {
    /// The buffer is shorter than the preamble, or than the index and the
    /// data region that the preamble announces.
    Truncated,
    /// The buffer does not begin with the header magic.
    BadMagic,
    /// The entry count or the data length is negative.
    NegativeLength,
    /// An index entry carries a type code that stands for no type.
    UnknownType { tag: i32, code: u32 },
    /// A value does not end within the data region.
    OutOfBounds { tag: i32, offset: u32 },
    /// A string runs to the end of the data without a terminator.
    Unterminated { tag: i32, offset: u32 },
    /// A single value is stored with a count other than one.
    BadCount { tag: i32, count: u32 },
    /// A string is not UTF-8.
    InvalidUtf8 { tag: i32 },
}

/// Why a header blob could not be turned into a package.
#[derive(Clone, Copy, Debug, PartialEq, Eq, Structural)]
pub enum DecodeError {
    MalformedBlob(BlobFault),
    /// A value was asked for as `expected` but is stored as `found`.
    TypeMismatch { tag: i32, expected: TypeTag, found: TypeTag },
}

/// A violation of a container format's structure.
#[derive(Clone, Copy, Debug, PartialEq, Eq, Structural)]
pub enum ContainerFault {
    /// The file ends before a structure that it announces.
    Truncated,
    /// A magic number is not the expected one.
    BadMagic,
    /// The page size is not one the format allows.
    BadPageSize,
    /// The database is encrypted.
    Encrypted,
    /// The metadata page is not that of a hash database.
    BadPageType,
    /// The index of a hash page, or an item it points to, is out of place.
    BadPageLayout { page: u32 },
    /// An item of a kind that cannot hold a record.
    UnsupportedItem { page: u32 },
    /// An overflow chain leaves the file, meets a page of another kind, or
    /// is longer than the file has pages.
    BadChain { page: u32 },
    /// The slot table is larger than the format allows.
    TooManySlots,
    /// A slot, or the blob it points to, is out of place.
    BadSlot { slot: u32 },
    /// The checksum stored with a blob is not that of its bytes.
    BadChecksum { slot: u32 },
}

/// Why a database image could not be read. The first two say that the
/// image is not of a format, and are what lets another format be tried.
#[derive(Debug, PartialEq, Eq)]
pub enum RpmdbError {
    /// The image does not carry the SQLite signature.
    InvalidSqliteFile,
    /// The image does not carry the NDB header.
    InvalidNdbFile,
    /// The image ends before the bytes that identify a format.
    UnexpectedEof,
    /// SQLite reported a failure; the text is its own.
    Sqlite(String),
    MalformedContainer(ContainerFault),
    /// A record is not a well-formed header blob.
    ParseBlob(DecodeError),
    /// The entries of a record could not be assembled into a package.
    ParseEntry(DecodeError),
}

} // verus!
