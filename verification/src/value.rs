//! The value of an entry, read under the entry's own type.
use crate::bytes::{
    copy_range, read_i16_be, read_i64_be, spec_i16_be, spec_i64_be, spec_signed8, to_signed8,
};
use crate::entry::{
    spec_i32s, spec_string_at, spec_strings_from, strings_view, EntryView, IndexEntry,
};
use crate::errors::{BlobFault, DecodeError};
use crate::rpmtags::TypeTag;
use vstd::prelude::*;

verus! {

/// A value of one of the ten types, with one variant for each. Values of
/// fixed width come as arrays of as many elements as the entry counts.
#[derive(Clone, Debug, PartialEq, Eq)]
pub enum Value {
    Null,
    Char(Vec<u8>),
    Int8(Vec<i8>),
    Int16(Vec<i16>),
    Int32(Vec<i32>),
    Int64(Vec<i64>),
    String(String),
    Bin(Vec<u8>),
    StringArray(Vec<String>),
    I18NString(Vec<String>),
}

/// What a `Value` holds, as a mathematical value.
pub enum ValueView {
    Null,
    Char(Seq<u8>),
    Int8(Seq<i8>),
    Int16(Seq<i16>),
    Int32(Seq<i32>),
    Int64(Seq<i64>),
    String(Seq<char>),
    Bin(Seq<u8>),
    StringArray(Seq<Seq<char>>),
    I18NString(Seq<Seq<char>>),
}

impl View for Value {
    type V = ValueView;

    open spec fn view(&self) -> ValueView {
        match self {
            Value::Null => ValueView::Null,
            Value::Char(v) => ValueView::Char(v@),
            Value::Int8(v) => ValueView::Int8(v@),
            Value::Int16(v) => ValueView::Int16(v@),
            Value::Int32(v) => ValueView::Int32(v@),
            Value::Int64(v) => ValueView::Int64(v@),
            Value::String(s) => ValueView::String(s@),
            Value::Bin(v) => ValueView::Bin(v@),
            Value::StringArray(v) => ValueView::StringArray(strings_view(v@)),
            Value::I18NString(v) => ValueView::I18NString(strings_view(v@)),
        }
    }
}

/// `count` signed bytes from the start of `data`.
pub open spec fn spec_i8s(data: Seq<u8>, count: nat) -> Seq<i8> {
    Seq::new(count, |i: int| spec_signed8(data[i] as int) as i8)
}

/// `count` signed 16-bit integers, big-endian, from the start of `data`.
pub open spec fn spec_i16s(data: Seq<u8>, count: nat) -> Seq<i16> {
    Seq::new(count, |i: int| spec_i16_be(data, 2 * i) as i16)
}

/// `count` signed 64-bit integers, big-endian, from the start of `data`.
pub open spec fn spec_i64s(data: Seq<u8>, count: nat) -> Seq<i64> {
    Seq::new(count, |i: int| spec_i64_be(data, 8 * i) as i64)
}

impl EntryView {
    /// The value of the entry under its own type.
    ///
    /// A value of fixed width needs as many bytes as its element width
    /// times the count; a single string needs the count one; every string
    /// needs its terminator and must be UTF-8.
    pub open spec fn spec_value(self) -> Result<ValueView, DecodeError> {
        let count = self.info.count as nat;
        let short = Err::<ValueView, DecodeError>(
            DecodeError::MalformedBlob(
                BlobFault::OutOfBounds { tag: self.info.tag, offset: self.info.offset },
            ),
        );
        match self.info.type_tag {
            TypeTag::Null => Ok(ValueView::Null),
            TypeTag::Char => if self.data.len() < count {
                short
            } else {
                Ok(ValueView::Char(self.data.subrange(0, count as int)))
            },
            TypeTag::Bin => if self.data.len() < count {
                short
            } else {
                Ok(ValueView::Bin(self.data.subrange(0, count as int)))
            },
            TypeTag::Int8 => if self.data.len() < count {
                short
            } else {
                Ok(ValueView::Int8(spec_i8s(self.data, count)))
            },
            TypeTag::Int16 => if self.data.len() < 2 * count {
                short
            } else {
                Ok(ValueView::Int16(spec_i16s(self.data, count)))
            },
            TypeTag::Int32 => if self.data.len() < 4 * count {
                short
            } else {
                Ok(ValueView::Int32(spec_i32s(self.data, count)))
            },
            TypeTag::Int64 => if self.data.len() < 8 * count {
                short
            } else {
                Ok(ValueView::Int64(spec_i64s(self.data, count)))
            },
            TypeTag::String => match self.spec_read_string() {
                Err(e) => Err(e),
                Ok(s) => Ok(ValueView::String(s)),
            },
            TypeTag::StringArray => match spec_strings_from(self.info, self.data, 0, count) {
                Err(e) => Err(e),
                Ok(v) => Ok(ValueView::StringArray(v)),
            },
            TypeTag::I18NString => match spec_strings_from(self.info, self.data, 0, count) {
                Err(e) => Err(e),
                Ok(v) => Ok(ValueView::I18NString(v)),
            },
        }
    }
}

fn read_i8s(data: &[u8], count: usize) -> (r: Vec<i8>)
    requires
        count <= data@.len(),
    ensures
        r@ == spec_i8s(data@, count as nat),
{
    let mut out: Vec<i8> = Vec::new();
    let mut i: usize = 0;
    while i < count
        invariant
            i <= count <= data@.len(),
            out@ == spec_i8s(data@, i as nat),
        decreases count - i,
    {
        out.push(to_signed8(data[i]));
        i += 1;
        assert(out@ =~= spec_i8s(data@, i as nat));
    }
    out
}

fn read_i16s(data: &[u8], count: usize) -> (r: Vec<i16>)
    requires
        2 * count <= data@.len(),
    ensures
        r@ == spec_i16s(data@, count as nat),
{
    let total: usize = data.len();
    let mut out: Vec<i16> = Vec::new();
    let mut i: usize = 0;
    while i < count
        invariant
            i <= count,
            2 * count <= total,
            total == data@.len(),
            out@ == spec_i16s(data@, i as nat),
        decreases count - i,
    {
        out.push(read_i16_be(data, 2 * i));
        i += 1;
        assert(out@ =~= spec_i16s(data@, i as nat));
    }
    out
}

fn read_i64s(data: &[u8], count: usize) -> (r: Vec<i64>)
    requires
        8 * count <= data@.len(),
    ensures
        r@ == spec_i64s(data@, count as nat),
{
    let total: usize = data.len();
    let mut out: Vec<i64> = Vec::new();
    let mut i: usize = 0;
    while i < count
        invariant
            i <= count,
            8 * count <= total,
            total == data@.len(),
            out@ == spec_i64s(data@, i as nat),
        decreases count - i,
    {
        out.push(read_i64_be(data, 8 * i));
        i += 1;
        assert(out@ =~= spec_i64s(data@, i as nat));
    }
    out
}

impl IndexEntry {
    /// Reads the value under the entry's own type, whichever it is.
    pub fn value(&self) -> (r: Result<Value, DecodeError>)
        ensures
            match self@.spec_value() {
                Ok(value) => r matches Ok(v) && v@ == value,
                Err(e) => r == Err::<Value, DecodeError>(e),
            },
    {
        let data: &[u8] = self.data.as_slice();
        let total: u64 = data.len() as u64;
        let count: u64 = self.info.count as u64;
        let short = DecodeError::MalformedBlob(
            BlobFault::OutOfBounds { tag: self.info.tag, offset: self.info.offset },
        );
        match self.info.type_tag {
            TypeTag::Null => Ok(Value::Null),
            TypeTag::Char => {
                if total < count {
                    return Err(short);
                }
                Ok(Value::Char(copy_range(data, 0, count as usize)))
            },
            TypeTag::Bin => {
                if total < count {
                    return Err(short);
                }
                Ok(Value::Bin(copy_range(data, 0, count as usize)))
            },
            TypeTag::Int8 => {
                if total < count {
                    return Err(short);
                }
                Ok(Value::Int8(read_i8s(data, count as usize)))
            },
            TypeTag::Int16 => {
                if total < 2 * count {
                    return Err(short);
                }
                Ok(Value::Int16(read_i16s(data, count as usize)))
            },
            TypeTag::Int32 => {
                match self.read_i32_array() {
                    Err(e) => Err(e),
                    Ok(v) => Ok(Value::Int32(v)),
                }
            },
            TypeTag::Int64 => {
                if total < 8 * count {
                    return Err(short);
                }
                Ok(Value::Int64(read_i64s(data, count as usize)))
            },
            TypeTag::String => {
                match self.read_string() {
                    Err(e) => Err(e),
                    Ok(s) => Ok(Value::String(s)),
                }
            },
            TypeTag::StringArray => {
                match self.read_string_array() {
                    Err(e) => Err(e),
                    Ok(v) => Ok(Value::StringArray(v)),
                }
            },
            TypeTag::I18NString => {
                match self.read_string_array() {
                    Err(e) => Err(e),
                    Ok(v) => Ok(Value::I18NString(v)),
                }
            },
        }
    }
}

} // verus!
