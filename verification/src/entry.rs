//! The header blob: a preamble, an index of typed entries, and the data
//! region that the entries point into.
//!
//! The preamble is the eight bytes of the header magic, the number of index
//! entries and the length of the data region, both as 32-bit big-endian
//! integers. Each index entry is sixteen bytes: tag, type code, offset into
//! the data region and element count, big-endian again.
use crate::bytes::{copy_range, read_i32_be, read_u32, spec_i32_be, spec_u32_be};
use crate::errors::{BlobFault, DecodeError};
use crate::rpmtags::TypeTag;
use vstd::prelude::*;
use vstd::slice::slice_subrange;
use vstd::utf8::{decode_utf8, valid_utf8};

verus! {

/// The bytes that every header blob begins with.
pub open spec fn header_magic() -> Seq<u8> {
    seq![0x8eu8, 0xadu8, 0xe8u8, 0x01u8, 0u8, 0u8, 0u8, 0u8]
}

/// Whether `data` begins with the header magic.
pub open spec fn spec_has_magic(data: Seq<u8>) -> bool {
    data.len() >= 8 && data.subrange(0, 8) == header_magic()
}

/// Tells whether `data` begins with the header magic.
pub fn has_magic(data: &[u8]) -> (r: bool)
    ensures
        r == spec_has_magic(data@),
{
    if data.len() < 8 {
        return false;
    }
    let r: bool = data[0] == 0x8e && data[1] == 0xad && data[2] == 0xe8 && data[3] == 0x01
        && data[4] == 0 && data[5] == 0 && data[6] == 0 && data[7] == 0;
    proof {
        let head = data@.subrange(0, 8);
        if r {
            assert(head =~= header_magic());
        } else {
            assert(head[0] == data@[0] && head[1] == data@[1] && head[2] == data@[2] && head[3]
                == data@[3] && head[4] == data@[4] && head[5] == data@[5] && head[6] == data@[6]
                && head[7] == data@[7]);
        }
    }
    r
}

/// One index entry: which field a value belongs to, how it is stored, and
/// where in the data region it lies.
#[derive(Clone, Copy, Debug, PartialEq, Eq, Structural)]
pub struct EntryInfo {
    pub tag: i32,
    pub type_tag: TypeTag,
    pub offset: u32,
    pub count: u32,
}

/// The decoded preamble and index of a header blob.
#[derive(Debug)]
pub struct Hdrblob {
    pub data_length: u32,
    pub entries: Vec<EntryInfo>,
}

/// Where the index entry `i` begins in the blob.
pub open spec fn spec_entry_start(i: int) -> int {
    16 + 16 * i
}

/// The index entry `i` of the blob `data`.
pub open spec fn spec_parse_entry(data: Seq<u8>, i: int) -> Result<EntryInfo, DecodeError> {
    let at = spec_entry_start(i);
    let tag = spec_i32_be(data, at) as i32;
    let code = spec_u32_be(data, at + 4) as u32;
    match TypeTag::spec_from_code(code) {
        None => Err(DecodeError::MalformedBlob(BlobFault::UnknownType { tag, code })),
        Some(type_tag) => Ok(
            EntryInfo {
                tag,
                type_tag,
                offset: spec_u32_be(data, at + 8) as u32,
                count: spec_u32_be(data, at + 12) as u32,
            },
        ),
    }
}

/// The first `n` index entries of the blob `data`, or the fault of the first
/// among them that has one.
pub open spec fn spec_parse_entries(data: Seq<u8>, n: nat) -> Result<Seq<EntryInfo>, DecodeError>
    decreases n,
{
    if n == 0 {
        Ok(Seq::empty())
    } else {
        match spec_parse_entries(data, (n - 1) as nat) {
            Err(e) => Err(e),
            Ok(before) => match spec_parse_entry(data, n - 1) {
                Err(e) => Err(e),
                Ok(info) => Ok(before.push(info)),
            },
        }
    }
}

/// Once an entry is at fault, reading further entries changes nothing.
proof fn lemma_parse_entries_fault(data: Seq<u8>, m: nat, n: nat)
    requires
        m <= n,
        spec_parse_entries(data, m) is Err,
    ensures
        spec_parse_entries(data, n) == spec_parse_entries(data, m),
    decreases n,
{
    if m < n {
        lemma_parse_entries_fault(data, m, (n - 1) as nat);
    }
}

/// The length of the data region and the index entries of the blob `data`.
pub open spec fn spec_from_bytes(data: Seq<u8>) -> Result<(u32, Seq<EntryInfo>), DecodeError> {
    if data.len() < 16 {
        Err(DecodeError::MalformedBlob(BlobFault::Truncated))
    } else if !spec_has_magic(data) {
        Err(DecodeError::MalformedBlob(BlobFault::BadMagic))
    } else {
        let index_count = spec_u32_be(data, 8);
        let data_length = spec_u32_be(data, 12);
        if index_count >= 0x8000_0000 || data_length >= 0x8000_0000 {
            Err(DecodeError::MalformedBlob(BlobFault::NegativeLength))
        } else if spec_entry_start(index_count) + data_length > data.len() {
            Err(DecodeError::MalformedBlob(BlobFault::Truncated))
        } else {
            match spec_parse_entries(data, index_count as nat) {
                Err(e) => Err(e),
                Ok(entries) => Ok((data_length as u32, entries)),
            }
        }
    }
}

impl Hdrblob {
    /// Reads the index entry `i` of `data`.
    fn parse_entry(data: &[u8], i: u32) -> (r: Result<EntryInfo, DecodeError>)
        requires
            spec_entry_start(i as int) + 16 <= data@.len(),
        ensures
            r == spec_parse_entry(data@, i as int),
    {
        let total: usize = data.len();
        let at: usize = 16 + 16 * (i as usize);
        let tag: i32 = read_i32_be(data, at);
        let code: u32 = read_u32(data, at + 4, true);
        match TypeTag::from_code(code) {
            None => Err(DecodeError::MalformedBlob(BlobFault::UnknownType { tag, code })),
            Some(type_tag) => {
                let offset: u32 = read_u32(data, at + 8, true);
                let count: u32 = read_u32(data, at + 12, true);
                Ok(EntryInfo { tag, type_tag, offset, count })
            },
        }
    }

    /// Decodes the preamble and the index of a header blob.
    ///
    /// Fails when the buffer is too short for its preamble, does not begin
    /// with the magic, announces a negative count or length, is shorter than
    /// the index and data region it announces, or holds an entry with an
    /// unknown type code. The first entry at fault, in index order, is the
    /// one reported.
    #[verifier::loop_isolation(false)]
    pub fn from_bytes(data: &[u8]) -> (r: Result<Hdrblob, DecodeError>)
        ensures
            match spec_from_bytes(data@) {
                Ok((data_length, entries)) => r matches Ok(blob) && blob.data_length == data_length
                    && blob.entries@ == entries,
                Err(e) => r == Err::<Hdrblob, DecodeError>(e),
            },
    {
        if data.len() < 16 {
            return Err(DecodeError::MalformedBlob(BlobFault::Truncated));
        }
        if !has_magic(data) {
            return Err(DecodeError::MalformedBlob(BlobFault::BadMagic));
        }
        let index_count: u32 = read_u32(data, 8, true);
        let data_length: u32 = read_u32(data, 12, true);
        if index_count >= 0x8000_0000 || data_length >= 0x8000_0000 {
            return Err(DecodeError::MalformedBlob(BlobFault::NegativeLength));
        }
        let needed: u64 = 16 + 16 * (index_count as u64) + (data_length as u64);
        if needed > data.len() as u64 {
            return Err(DecodeError::MalformedBlob(BlobFault::Truncated));
        }
        let mut entries: Vec<EntryInfo> = Vec::new();
        let mut i: u32 = 0;
        while i < index_count
            invariant
                i <= index_count,
                spec_entry_start(index_count as int) <= data@.len(),
                spec_parse_entries(data@, i as nat) == Ok::<Seq<EntryInfo>, DecodeError>(entries@),
            decreases index_count - i,
        {
            match Self::parse_entry(data, i) {
                Err(e) => {
                    proof {
                        assert(spec_parse_entries(data@, (i + 1) as nat) == Err::<
                            Seq<EntryInfo>,
                            DecodeError,
                        >(e));
                        lemma_parse_entries_fault(data@, (i + 1) as nat, index_count as nat);
                    }
                    return Err(e);
                },
                Ok(info) => {
                    entries.push(info);
                },
            }
            i += 1;
        }
        Ok(Hdrblob { data_length, entries })
    }
}

/// An index entry together with a copy of the bytes of its value.
#[derive(Clone, Debug, PartialEq, Eq)]
pub struct IndexEntry {
    pub info: EntryInfo,
    pub data: Vec<u8>,
}

/// What an `IndexEntry` holds, as a mathematical value.
pub struct EntryView {
    pub info: EntryInfo,
    pub data: Seq<u8>,
}

impl View for IndexEntry {
    type V = EntryView;

    open spec fn view(&self) -> EntryView {
        EntryView { info: self.info, data: self.data@ }
    }
}

/// The views of a sequence of entries, in the same order.
pub open spec fn entry_views(entries: Seq<IndexEntry>) -> Seq<EntryView> {
    Seq::new(entries.len(), |i: int| entries[i]@)
}

/// The position of the first zero byte of `s` at or after `from`, or the
/// length of `s` if there is none.
pub open spec fn spec_find_nul(s: Seq<u8>, from: int) -> int
    decreases s.len() - from,
{
    if from < 0 || from >= s.len() {
        s.len() as int
    } else if s[from] == 0 {
        from
    } else {
        spec_find_nul(s, from + 1)
    }
}

/// `spec_find_nul` finds the first terminator and nothing else.
proof fn lemma_find_nul(s: Seq<u8>, from: int)
    requires
        0 <= from <= s.len(),
    ensures
        from <= spec_find_nul(s, from) <= s.len(),
        forall|j: int| from <= j < spec_find_nul(s, from) ==> s[j] != 0,
        spec_find_nul(s, from) < s.len() ==> s[spec_find_nul(s, from)] == 0,
    decreases s.len() - from,
{
    if from < s.len() && s[from] != 0 {
        lemma_find_nul(s, from + 1);
    }
}

/// Finds the first zero byte at or after `from`; the length of `data`
/// stands for none.
pub fn find_nul(data: &[u8], from: usize) -> (r: usize)
    ensures
        r == spec_find_nul(data@, from as int),
        from <= data@.len() ==> from <= r <= data@.len(),
{
    let total: usize = data.len();
    if from >= total {
        return total;
    }
    let mut i: usize = from;
    while i < total && data[i] != 0
        invariant
            from <= i <= total,
            total == data@.len(),
            spec_find_nul(data@, from as int) == spec_find_nul(data@, i as int),
        decreases total - i,
    {
        i += 1;
    }
    i
}

/// The position just after `count` terminated strings that begin at `from`,
/// if `s` holds that many.
pub open spec fn spec_strings_end(s: Seq<u8>, from: int, count: nat) -> Option<int>
    decreases count,
{
    if count == 0 {
        Some(from)
    } else {
        let nul = spec_find_nul(s, from);
        if nul >= s.len() {
            None
        } else {
            spec_strings_end(s, nul + 1, (count - 1) as nat)
        }
    }
}

/// Finds the position just after `count` terminated strings that begin at
/// `from`.
pub fn strings_end(data: &[u8], from: usize, count: u32) -> (r: Option<usize>)
    ensures
        r is Some == spec_strings_end(data@, from as int, count as nat) is Some,
        r matches Some(end) ==> spec_strings_end(data@, from as int, count as nat) == Some(
            end as int,
        ),
        r matches Some(end) ==> (from <= data@.len() ==> from <= end <= data@.len()),
{
    let total: usize = data.len();
    let mut pos: usize = from;
    let mut left: u32 = count;
    while left > 0
        invariant
            from <= pos,
            from <= total ==> pos <= total,
            total == data@.len(),
            spec_strings_end(data@, from as int, count as nat) == spec_strings_end(
                data@,
                pos as int,
                left as nat,
            ),
        decreases left,
    {
        let nul: usize = find_nul(data, pos);
        if nul >= total {
            return None;
        }
        pos = nul + 1;
        left -= 1;
    }
    Some(pos)
}

/// The number of bytes that the value of `info` takes in the data region
/// `region`.
///
/// Whatever the type and the count, the value must begin inside the region:
/// an offset at or beyond its end is out of bounds. A value of fixed width
/// takes its element width times its count; a string runs through its
/// terminator, and an array of strings through the terminator of its last
/// string. A single string must have the count one. The value must end
/// within the region.
pub open spec fn spec_extent(region: Seq<u8>, info: EntryInfo) -> Result<int, DecodeError> {
    let out_of_bounds = Err::<int, DecodeError>(
        DecodeError::MalformedBlob(BlobFault::OutOfBounds { tag: info.tag, offset: info.offset }),
    );
    if info.offset >= region.len() {
        out_of_bounds
    } else {
        match info.type_tag.spec_fixed_size(info.count) {
            Some(size) => if info.offset + size > region.len() {
                out_of_bounds
            } else {
                Ok(size)
            },
            None => if info.type_tag == TypeTag::String && info.count != 1 {
                Err(
                    DecodeError::MalformedBlob(
                        BlobFault::BadCount { tag: info.tag, count: info.count },
                    ),
                )
            } else {
                match spec_strings_end(region, info.offset as int, info.count as nat) {
                    None => Err(
                        DecodeError::MalformedBlob(
                            BlobFault::Unterminated { tag: info.tag, offset: info.offset },
                        ),
                    ),
                    Some(end) => Ok(end - info.offset),
                }
            },
        }
    }
}

/// The entry `info` with the bytes of its value out of `region`.
pub open spec fn spec_index_entry(region: Seq<u8>, info: EntryInfo) -> Result<
    EntryView,
    DecodeError,
> {
    match spec_extent(region, info) {
        Err(e) => Err(e),
        Ok(size) => Ok(
            EntryView { info, data: region.subrange(info.offset as int, info.offset + size) },
        ),
    }
}

/// The first `n` of `infos`, each with the bytes of its value, or the fault
/// of the first among them whose value does not lie within `region`.
pub open spec fn spec_index_entries(region: Seq<u8>, infos: Seq<EntryInfo>, n: nat) -> Result<
    Seq<EntryView>,
    DecodeError,
>
    decreases n,
{
    if n == 0 {
        Ok(Seq::empty())
    } else {
        match spec_index_entries(region, infos, (n - 1) as nat) {
            Err(e) => Err(e),
            Ok(before) => match spec_index_entry(region, infos[n - 1]) {
                Err(e) => Err(e),
                Ok(entry) => Ok(before.push(entry)),
            },
        }
    }
}

/// Once a value is out of place, looking at further entries changes nothing.
proof fn lemma_index_entries_fault(region: Seq<u8>, infos: Seq<EntryInfo>, m: nat, n: nat)
    requires
        m <= n,
        spec_index_entries(region, infos, m) is Err,
    ensures
        spec_index_entries(region, infos, n) == spec_index_entries(region, infos, m),
    decreases n,
{
    if m < n {
        lemma_index_entries_fault(region, infos, m, (n - 1) as nat);
    }
}

/// The entries of a blob with `infos` as its index and a data region of
/// `data_length` bytes, read out of the blob's bytes `data`.
pub open spec fn spec_import(data: Seq<u8>, data_length: u32, infos: Seq<EntryInfo>) -> Result<
    Seq<EntryView>,
    DecodeError,
> {
    let start = spec_entry_start(infos.len() as int);
    if start + data_length > data.len() {
        Err(DecodeError::MalformedBlob(BlobFault::Truncated))
    } else {
        spec_index_entries(data.subrange(start, start + data_length), infos, infos.len())
    }
}

/// Measures the value of `info` in `region`.
pub fn extent(region: &[u8], info: EntryInfo) -> (r: Result<usize, DecodeError>)
    ensures
        match spec_extent(region@, info) {
            Ok(size) => r matches Ok(measured) && measured == size && info.offset + measured
                <= region@.len(),
            Err(e) => r == Err::<usize, DecodeError>(e),
        },
{
    let total: usize = region.len();
    let out_of_bounds = DecodeError::MalformedBlob(
        BlobFault::OutOfBounds { tag: info.tag, offset: info.offset },
    );
    if info.offset as u64 >= total as u64 {
        return Err(out_of_bounds);
    }
    match info.type_tag.fixed_size(info.count) {
        Some(size) => {
            if info.offset as u64 + size > total as u64 {
                Err(out_of_bounds)
            } else {
                Ok(size as usize)
            }
        },
        None => {
            if info.type_tag == TypeTag::String && info.count != 1 {
                return Err(
                    DecodeError::MalformedBlob(
                        BlobFault::BadCount { tag: info.tag, count: info.count },
                    ),
                );
            }
            let from: usize = info.offset as usize;
            match strings_end(region, from, info.count) {
                None => Err(
                    DecodeError::MalformedBlob(
                        BlobFault::Unterminated { tag: info.tag, offset: info.offset },
                    ),
                ),
                Some(end) => Ok(end - from),
            }
        },
    }
}

impl Hdrblob {
    /// Copies the value of each index entry out of the blob `data`, the
    /// buffer that `self` was decoded from.
    ///
    /// Every value is measured against the data region on its own: an entry
    /// whose offset is not inside the region, a value that ends outside it,
    /// or a string without a terminator inside it, fails the whole import,
    /// and no byte outside `data` is read. The first entry at fault, in index order, is the one
    /// reported.
    #[verifier::loop_isolation(false)]
    pub fn import(&self, data: &[u8]) -> (r: Result<Vec<IndexEntry>, DecodeError>)
        ensures
            match spec_import(data@, self.data_length, self.entries@) {
                Ok(entries) => r matches Ok(v) && entry_views(v@) == entries,
                Err(e) => r == Err::<Vec<IndexEntry>, DecodeError>(e),
            },
    {
        let total: usize = data.len();
        let n: usize = self.entries.len();
        let truncated = DecodeError::MalformedBlob(BlobFault::Truncated);
        if total < 16 || (total - 16) / 16 < n {
            return Err(truncated);
        }
        let start: usize = 16 + 16 * n;
        if total - start < self.data_length as usize {
            return Err(truncated);
        }
        let region: &[u8] = slice_subrange(data, start, start + self.data_length as usize);
        let mut out: Vec<IndexEntry> = Vec::new();
        let mut i: usize = 0;
        assert(entry_views(out@) =~= Seq::<EntryView>::empty());
        while i < n
            invariant
                i <= n,
                spec_index_entries(region@, self.entries@, i as nat) == Ok::<
                    Seq<EntryView>,
                    DecodeError,
                >(entry_views(out@)),
            decreases n - i,
        {
            let info: EntryInfo = self.entries[i];
            match extent(region, info) {
                Err(e) => {
                    proof {
                        assert(spec_index_entries(region@, self.entries@, (i + 1) as nat) == Err::<
                            Seq<EntryView>,
                            DecodeError,
                        >(e));
                        lemma_index_entries_fault(region@, self.entries@, (i + 1) as nat, n as nat);
                    }
                    return Err(e);
                },
                Ok(size) => {
                    let from: usize = info.offset as usize;
                    let value: Vec<u8> = copy_range(region, from, from + size);
                    let ghost before = entry_views(out@);
                    out.push(IndexEntry { info, data: value });
                    assert(entry_views(out@) =~= before.push(
                        EntryView { info, data: region@.subrange(from as int, from + size) },
                    ));
                },
            }
            i += 1;
        }
        Ok(out)
    }
}

/// `String::from_utf8` of std: the string is there exactly when the bytes
/// are well-formed UTF-8, and its characters are then the ones they encode.
#[verifier::external_body]
fn string_from_utf8(bytes: Vec<u8>) -> (r: Option<String>)
    ensures
        r is Some <==> valid_utf8(bytes@),
        r matches Some(s) ==> s@ == decode_utf8(bytes@),
{
    match String::from_utf8(bytes) {
        Ok(s) => Some(s),
        Err(_) => None,
    }
}

/// The characters of each string, in the same order.
pub open spec fn strings_view(strings: Seq<String>) -> Seq<Seq<char>> {
    Seq::new(strings.len(), |i: int| strings[i]@)
}

/// The string that begins at `from` in the value `data` of the entry `info`:
/// the bytes up to the first terminator, read as UTF-8.
pub open spec fn spec_string_at(info: EntryInfo, data: Seq<u8>, from: int) -> Result<
    Seq<char>,
    DecodeError,
> {
    let nul = spec_find_nul(data, from);
    if nul >= data.len() {
        Err(
            DecodeError::MalformedBlob(
                BlobFault::Unterminated { tag: info.tag, offset: info.offset },
            ),
        )
    } else if !valid_utf8(data.subrange(from, nul)) {
        Err(DecodeError::MalformedBlob(BlobFault::InvalidUtf8 { tag: info.tag }))
    } else {
        Ok(decode_utf8(data.subrange(from, nul)))
    }
}

/// `count` strings, one after the other's terminator, the first at `from`.
pub open spec fn spec_strings_from(info: EntryInfo, data: Seq<u8>, from: int, count: nat) -> Result<
    Seq<Seq<char>>,
    DecodeError,
>
    decreases count,
{
    if count == 0 {
        Ok(Seq::empty())
    } else {
        match spec_string_at(info, data, from) {
            Err(e) => Err(e),
            Ok(first) => match spec_strings_from(
                info,
                data,
                spec_find_nul(data, from) + 1,
                (count - 1) as nat,
            ) {
                Err(e) => Err(e),
                Ok(rest) => Ok(seq![first] + rest),
            },
        }
    }
}

/// `count` signed 32-bit integers, big-endian, from the start of `data`.
pub open spec fn spec_i32s(data: Seq<u8>, count: nat) -> Seq<i32> {
    Seq::new(count, |i: int| spec_i32_be(data, 4 * i) as i32)
}

/// A mismatch between the type a reader wants and the type of the entry.
pub open spec fn type_mismatch(info: EntryInfo, expected: TypeTag) -> DecodeError {
    DecodeError::TypeMismatch { tag: info.tag, expected, found: info.type_tag }
}

/// Reads the string at `from` and says where the next one begins.
fn string_at(info: EntryInfo, data: &[u8], from: usize) -> (r: Result<(String, usize), DecodeError>)
    requires
        from <= data@.len(),
    ensures
        match spec_string_at(info, data@, from as int) {
            Ok(chars) => r matches Ok((s, next)) && s@ == chars && next == spec_find_nul(
                data@,
                from as int,
            ) + 1 && next <= data@.len(),
            Err(e) => r == Err::<(String, usize), DecodeError>(e),
        },
{
    let nul: usize = find_nul(data, from);
    if nul >= data.len() {
        return Err(
            DecodeError::MalformedBlob(
                BlobFault::Unterminated { tag: info.tag, offset: info.offset },
            ),
        );
    }
    match string_from_utf8(copy_range(data, from, nul)) {
        None => Err(DecodeError::MalformedBlob(BlobFault::InvalidUtf8 { tag: info.tag })),
        Some(s) => Ok((s, nul + 1)),
    }
}

impl EntryView {
    /// The value as one signed 32-bit integer.
    pub open spec fn spec_read_i32(self) -> Result<i32, DecodeError> {
        if self.info.type_tag != TypeTag::Int32 {
            Err(type_mismatch(self.info, TypeTag::Int32))
        } else if self.info.count != 1 {
            Err(
                DecodeError::MalformedBlob(
                    BlobFault::BadCount { tag: self.info.tag, count: self.info.count },
                ),
            )
        } else if self.data.len() < 4 {
            Err(
                DecodeError::MalformedBlob(
                    BlobFault::OutOfBounds { tag: self.info.tag, offset: self.info.offset },
                ),
            )
        } else {
            Ok(spec_i32_be(self.data, 0) as i32)
        }
    }

    /// The value as an array of signed 32-bit integers.
    pub open spec fn spec_read_i32_array(self) -> Result<Seq<i32>, DecodeError> {
        if self.info.type_tag != TypeTag::Int32 {
            Err(type_mismatch(self.info, TypeTag::Int32))
        } else if self.data.len() < 4 * self.info.count {
            Err(
                DecodeError::MalformedBlob(
                    BlobFault::OutOfBounds { tag: self.info.tag, offset: self.info.offset },
                ),
            )
        } else {
            Ok(spec_i32s(self.data, self.info.count as nat))
        }
    }

    /// The value as one string.
    pub open spec fn spec_read_string(self) -> Result<Seq<char>, DecodeError> {
        if self.info.type_tag != TypeTag::String {
            Err(type_mismatch(self.info, TypeTag::String))
        } else if self.info.count != 1 {
            Err(
                DecodeError::MalformedBlob(
                    BlobFault::BadCount { tag: self.info.tag, count: self.info.count },
                ),
            )
        } else {
            spec_string_at(self.info, self.data, 0)
        }
    }

    /// The value as an array of strings.
    pub open spec fn spec_read_string_array(self) -> Result<Seq<Seq<char>>, DecodeError> {
        if self.info.type_tag != TypeTag::StringArray && self.info.type_tag
            != TypeTag::I18NString {
            Err(type_mismatch(self.info, TypeTag::StringArray))
        } else {
            spec_strings_from(self.info, self.data, 0, self.info.count as nat)
        }
    }
}

impl IndexEntry {
    /// Reads the value as one signed 32-bit integer.
    ///
    /// The entry must be of type `Int32` with the count one, and hold at
    /// least four bytes.
    pub fn read_i32(&self) -> (r: Result<i32, DecodeError>)
        ensures
            r == self@.spec_read_i32(),
    {
        if self.info.type_tag != TypeTag::Int32 {
            return Err(
                DecodeError::TypeMismatch {
                    tag: self.info.tag,
                    expected: TypeTag::Int32,
                    found: self.info.type_tag,
                },
            );
        }
        if self.info.count != 1 {
            return Err(
                DecodeError::MalformedBlob(
                    BlobFault::BadCount { tag: self.info.tag, count: self.info.count },
                ),
            );
        }
        if self.data.len() < 4 {
            return Err(
                DecodeError::MalformedBlob(
                    BlobFault::OutOfBounds { tag: self.info.tag, offset: self.info.offset },
                ),
            );
        }
        Ok(read_i32_be(self.data.as_slice(), 0))
    }

    /// Reads the value as `count` signed 32-bit integers.
    ///
    /// The entry must be of type `Int32` and hold four bytes for each.
    pub fn read_i32_array(&self) -> (r: Result<Vec<i32>, DecodeError>)
        ensures
            match self@.spec_read_i32_array() {
                Ok(values) => r matches Ok(v) && v@ == values,
                Err(e) => r == Err::<Vec<i32>, DecodeError>(e),
            },
    {
        if self.info.type_tag != TypeTag::Int32 {
            return Err(
                DecodeError::TypeMismatch {
                    tag: self.info.tag,
                    expected: TypeTag::Int32,
                    found: self.info.type_tag,
                },
            );
        }
        let data: &[u8] = self.data.as_slice();
        let total: usize = data.len();
        if (total as u64) < 4 * (self.info.count as u64) {
            return Err(
                DecodeError::MalformedBlob(
                    BlobFault::OutOfBounds { tag: self.info.tag, offset: self.info.offset },
                ),
            );
        }
        let count: usize = self.info.count as usize;
        let mut out: Vec<i32> = Vec::new();
        let mut i: usize = 0;
        while i < count
            invariant
                i <= count,
                4 * count <= total,
                total == data@.len(),
                out@ == spec_i32s(data@, i as nat),
            decreases count - i,
        {
            out.push(read_i32_be(data, 4 * i));
            i += 1;
            assert(out@ =~= spec_i32s(data@, i as nat));
        }
        Ok(out)
    }

    /// Reads the value as one string, without its terminator.
    ///
    /// The entry must be of type `String` with the count one, hold a
    /// terminator, and the bytes before it must be UTF-8.
    pub fn read_string(&self) -> (r: Result<String, DecodeError>)
        ensures
            match self@.spec_read_string() {
                Ok(chars) => r matches Ok(s) && s@ == chars,
                Err(e) => r == Err::<String, DecodeError>(e),
            },
    {
        if self.info.type_tag != TypeTag::String {
            return Err(
                DecodeError::TypeMismatch {
                    tag: self.info.tag,
                    expected: TypeTag::String,
                    found: self.info.type_tag,
                },
            );
        }
        if self.info.count != 1 {
            return Err(
                DecodeError::MalformedBlob(
                    BlobFault::BadCount { tag: self.info.tag, count: self.info.count },
                ),
            );
        }
        match string_at(self.info, self.data.as_slice(), 0) {
            Err(e) => Err(e),
            Ok((s, _)) => Ok(s),
        }
    }

    /// Reads the value as `count` strings, each without its terminator.
    ///
    /// The entry must be of type `StringArray` or `I18NString`. Each string
    /// begins just after the terminator of the one before, must have a
    /// terminator of its own, and must be UTF-8.
    #[verifier::loop_isolation(false)]
    pub fn read_string_array(&self) -> (r: Result<Vec<String>, DecodeError>)
        ensures
            match self@.spec_read_string_array() {
                Ok(strings) => r matches Ok(v) && strings_view(v@) == strings,
                Err(e) => r == Err::<Vec<String>, DecodeError>(e),
            },
    {
        if self.info.type_tag != TypeTag::StringArray && self.info.type_tag
            != TypeTag::I18NString {
            return Err(
                DecodeError::TypeMismatch {
                    tag: self.info.tag,
                    expected: TypeTag::StringArray,
                    found: self.info.type_tag,
                },
            );
        }
        let info: EntryInfo = self.info;
        let data: &[u8] = self.data.as_slice();
        let mut out: Vec<String> = Vec::new();
        let mut pos: usize = 0;
        let mut left: u32 = info.count;
        assert(strings_view(out@) + spec_strings_from(info, data@, 0, info.count as nat)->Ok_0
            =~= spec_strings_from(info, data@, 0, info.count as nat)->Ok_0);
        while left > 0
            invariant
                pos <= data@.len(),
                spec_strings_from(info, data@, 0, info.count as nat) == match spec_strings_from(
                    info,
                    data@,
                    pos as int,
                    left as nat,
                ) {
                    Ok(rest) => Ok::<Seq<Seq<char>>, DecodeError>(strings_view(out@) + rest),
                    Err(e) => Err(e),
                },
            decreases left,
        {
            match string_at(info, data, pos) {
                Err(e) => {
                    return Err(e);
                },
                Ok((s, next)) => {
                    let ghost before = strings_view(out@);
                    let ghost rest = spec_strings_from(info, data@, next as int, (left - 1) as nat);
                    out.push(s);
                    proof {
                        assert(strings_view(out@) =~= before.push(s@));
                        if rest is Ok {
                            assert(before + (seq![s@] + rest->Ok_0) =~= before.push(s@)
                                + rest->Ok_0);
                        }
                    }
                    pos = next;
                },
            }
            left -= 1;
        }
        proof {
            assert(strings_view(out@) + Seq::<Seq<char>>::empty() =~= strings_view(out@));
        }
        Ok(out)
    }
}

proof fn lemma_strings_end(s: Seq<u8>, from: int, count: nat)
    requires
        0 <= from <= s.len(),
    ensures
        spec_strings_end(s, from, count) matches Some(end) ==> from <= end <= s.len(),
    decreases count,
{
    if count > 0 {
        lemma_find_nul(s, from);
        if spec_find_nul(s, from) < s.len() {
            lemma_strings_end(s, spec_find_nul(s, from) + 1, (count - 1) as nat);
        }
    }
}

/// No value reaches beyond the data region: an entry whose offset is not
/// inside the region, or whose value of fixed width would end beyond it, is
/// refused as out of bounds; a value that is measured begins inside the
/// region and ends within it; and a value that is not measured is refused
/// as malformed.
pub proof fn law_extent_within_region(region: Seq<u8>, info: EntryInfo)
    ensures
        info.offset >= region.len() || (info.type_tag.spec_fixed_size(info.count) matches Some(
            size,
        ) && info.offset + size > region.len()) ==> spec_extent(region, info) == Err::<
            int,
            DecodeError,
        >(
            DecodeError::MalformedBlob(
                BlobFault::OutOfBounds { tag: info.tag, offset: info.offset },
            ),
        ),
        spec_extent(region, info) matches Ok(size) ==> 0 <= size && info.offset < region.len()
            && info.offset + size <= region.len(),
        spec_extent(region, info) matches Err(e) ==> e is MalformedBlob,
{
    if info.type_tag.spec_fixed_size(info.count) is None && info.offset < region.len() {
        lemma_strings_end(region, info.offset as int, info.count as nat);
    }
}

proof fn lemma_import_each(region: Seq<u8>, infos: Seq<EntryInfo>, n: nat)
    requires
        n <= infos.len(),
    ensures
        spec_index_entries(region, infos, n) is Ok <==> forall|i: int|
            0 <= i < n ==> (#[trigger] spec_index_entry(region, infos[i])) is Ok,
        spec_index_entries(region, infos, n) matches Ok(entries) ==> entries == Seq::new(
            n,
            |i: int| spec_index_entry(region, infos[i])->Ok_0,
        ),
        spec_index_entries(region, infos, n) matches Err(e) ==> e is MalformedBlob,
    decreases n,
{
    if n > 0 {
        lemma_import_each(region, infos, (n - 1) as nat);
        law_extent_within_region(region, infos[n - 1]);
        match spec_index_entries(region, infos, n) {
            Ok(entries) => {
                assert(entries =~= Seq::new(
                    n,
                    |i: int| spec_index_entry(region, infos[i])->Ok_0,
                ));
            },
            Err(_) => {},
        }
    } else {
        assert(spec_index_entries(region, infos, 0)->Ok_0 =~= Seq::new(
            0,
            |i: int| spec_index_entry(region, infos[i])->Ok_0,
        ));
    }
}

/// The entries of an index are taken out one by one, each on its own: the
/// import succeeds exactly when the value of every entry lies within the
/// region, each entry then carries the bytes that it alone determines, and
/// an import that fails fails as malformed.
pub proof fn law_import_each(region: Seq<u8>, infos: Seq<EntryInfo>)
    ensures
        spec_index_entries(region, infos, infos.len()) is Ok <==> forall|i: int|
            0 <= i < infos.len() ==> (#[trigger] spec_index_entry(region, infos[i])) is Ok,
        spec_index_entries(region, infos, infos.len()) matches Ok(entries) ==> entries
            == Seq::new(infos.len(), |i: int| spec_index_entry(region, infos[i])->Ok_0),
        spec_index_entries(region, infos, infos.len()) matches Err(e) ==> e is MalformedBlob,
{
    lemma_import_each(region, infos, infos.len());
}

/// A blob with an entry whose offset is not inside the data region, or
/// whose value would end beyond it, does not import: it is refused as
/// malformed.
pub proof fn law_import_bounds(data: Seq<u8>, data_length: u32, infos: Seq<EntryInfo>, i: int)
    requires
        0 <= i < infos.len(),
        infos[i].offset >= data_length || (infos[i].type_tag.spec_fixed_size(
            infos[i].count,
        ) matches Some(size) && infos[i].offset + size > data_length),
    ensures
        spec_import(data, data_length, infos) matches Err(e) && e is MalformedBlob,
{
    let start = spec_entry_start(infos.len() as int);
    if start + data_length <= data.len() {
        let region = data.subrange(start, start + data_length);
        law_import_each(region, infos);
        law_extent_within_region(region, infos[i]);
        assert(spec_index_entry(region, infos[i]) is Err);
    }
}

/// The order of the index does not matter to what is read: an index taken
/// backwards imports exactly when it does forwards, and every entry then
/// gets the same bytes either way.
pub proof fn law_import_order(region: Seq<u8>, infos: Seq<EntryInfo>)
    ensures
        spec_index_entries(region, infos.reverse(), infos.len()) is Ok <==> spec_index_entries(
            region,
            infos,
            infos.len(),
        ) is Ok,
        spec_index_entries(region, infos, infos.len()) matches Ok(entries) ==> spec_index_entries(
            region,
            infos.reverse(),
            infos.len(),
        ) == Ok::<Seq<EntryView>, DecodeError>(entries.reverse()),
{
    let n = infos.len();
    let back = infos.reverse();
    law_import_each(region, infos);
    law_import_each(region, back);
    let forwards = spec_index_entries(region, infos, n);
    let backwards = spec_index_entries(region, back, n);
    if forwards is Ok {
        assert forall|i: int| 0 <= i < n implies (#[trigger] spec_index_entry(
            region,
            back[i],
        )) is Ok by {
            assert(back[i] == infos[n - 1 - i]);
        }
        assert(backwards->Ok_0 =~= forwards->Ok_0.reverse()) by {
            assert forall|i: int| 0 <= i < n implies backwards->Ok_0[i]
                == forwards->Ok_0.reverse()[i] by {
                assert(back[i] == infos[n - 1 - i]);
            }
        }
    }
    if backwards is Ok {
        assert forall|i: int| 0 <= i < n implies (#[trigger] spec_index_entry(
            region,
            infos[i],
        )) is Ok by {
            assert(back[n - 1 - i] == infos[i]);
            assert(spec_index_entry(region, back[n - 1 - i]) is Ok);
        }
    }
}

/// A string needs its terminator: bytes without a zero among them do not
/// read as a string, and bytes whose only zero is the last one read as the
/// string that all the bytes before it spell.
pub proof fn law_string_terminator(info: EntryInfo, data: Seq<u8>)
    ensures
        (forall|i: int| 0 <= i < data.len() ==> data[i] != 0) ==> spec_string_at(info, data, 0)
            == Err::<Seq<char>, DecodeError>(
            DecodeError::MalformedBlob(
                BlobFault::Unterminated { tag: info.tag, offset: info.offset },
            ),
        ),
        data.len() > 0 && data.last() == 0 && (forall|i: int|
            0 <= i < data.len() - 1 ==> data[i] != 0) && valid_utf8(data.drop_last())
            ==> spec_string_at(info, data, 0) == Ok::<Seq<char>, DecodeError>(
            decode_utf8(data.drop_last()),
        ),
{
    lemma_find_nul(data, 0);
    if data.len() > 0 && data.last() == 0 && (forall|i: int|
        0 <= i < data.len() - 1 ==> data[i] != 0) {
        assert(spec_find_nul(data, 0) == data.len() - 1);
        assert(data.subrange(0, data.len() - 1) =~= data.drop_last());
    }
}

} // verus!
