//! The slot-indexed NDB container.
//!
//! The file begins with a header of 32 bytes: magic, version, generation
//! and the number of pages of 4096 bytes that the slot table takes, each a
//! 32-bit little-endian integer. The slot table lies over those pages as an
//! array of slots of 16 bytes, the first two of which are the header itself.
//! A slot gives its magic, the index of a package, and where the package's
//! blob lies and how much room it takes, both counted in blocks of 16 bytes.
//! A package index of zero marks a slot that is free.
//!
//! A blob is a head of 16 bytes (magic, package index, generation, length),
//! the record's bytes, and a tail of 12 bytes: the Adler-32 checksum of head
//! and record, the length again, and the closing magic.
use crate::bytes::{copy_range, read_u32, records_view, spec_u32_le};
use crate::errors::{ContainerFault, RpmdbError};
use crate::DBI;
use vstd::prelude::*;
use vstd::slice::slice_subrange;

verus! {

pub const NDB_HEADER_SIZE: usize = 32;

/// The most pages that a slot table may take.
pub const NDB_MAX_SLOT_PAGES: u32 = 2048;

/// The unit in which slots give the place and the size of a blob.
pub const NDB_BLOCK_SIZE: u64 = 16;

/// "RpmP", read as a little-endian integer.
pub const NDB_HEADER_MAGIC: u32 = 0x506d_7052;

/// "Slot", read as a little-endian integer.
pub const NDB_SLOT_MAGIC: u32 = 0x746f_6c53;

/// "BlbS", read as a little-endian integer.
pub const NDB_BLOB_MAGIC: u32 = 0x5362_6c42;

/// "BlbE", read as a little-endian integer.
pub const NDB_BLOB_END_MAGIC: u32 = 0x4562_6c42;

/// The one version of the format that is read.
pub const NDB_VERSION: u32 = 0;

pub const ADLER_MODULUS: u32 = 65521;

/// The low half of the Adler-32 checksum of `s`: one more than the sum of
/// its bytes, modulo 65521.
pub open spec fn spec_adler_low(s: Seq<u8>) -> int
    decreases s.len(),
{
    if s.len() == 0 {
        1
    } else {
        (spec_adler_low(s.drop_last()) + s.last()) % 65521
    }
}

/// The high half of the Adler-32 checksum of `s`: the sum of the low halves
/// of all its non-empty prefixes, modulo 65521.
pub open spec fn spec_adler_high(s: Seq<u8>) -> int
    decreases s.len(),
{
    if s.len() == 0 {
        0
    } else {
        (spec_adler_high(s.drop_last()) + spec_adler_low(s)) % 65521
    }
}

/// The Adler-32 checksum of `s`.
pub open spec fn spec_adler32(s: Seq<u8>) -> int {
    spec_adler_high(s) * 0x1_0000 + spec_adler_low(s)
}

/// Computes the Adler-32 checksum of `data`.
pub fn adler32(data: &[u8]) -> (r: u32)
    ensures
        r == spec_adler32(data@),
{
    let total: usize = data.len();
    let mut low: u32 = 1;
    let mut high: u32 = 0;
    let mut i: usize = 0;
    assert(data@.subrange(0, 0) =~= Seq::<u8>::empty());
    while i < total
        invariant
            i <= total,
            total == data@.len(),
            low == spec_adler_low(data@.subrange(0, i as int)),
            high == spec_adler_high(data@.subrange(0, i as int)),
            low < 65521,
            high < 65521,
        decreases total - i,
    {
        assert(data@.subrange(0, i + 1).drop_last() =~= data@.subrange(0, i as int));
        low = (low + data[i] as u32) % ADLER_MODULUS;
        high = (high + low) % ADLER_MODULUS;
        i += 1;
    }
    assert(data@.subrange(0, total as int) =~= data@);
    high * 0x1_0000 + low
}

/// What a database image must begin with to be taken for an NDB file: the
/// magic, the version this library reads, and a slot table of some size.
pub open spec fn spec_is_ndb(data: Seq<u8>) -> bool {
    &&& data.len() >= 32
    &&& spec_u32_le(data, 0) == NDB_HEADER_MAGIC
    &&& spec_u32_le(data, 4) == NDB_VERSION
    &&& spec_u32_le(data, 12) != 0
}

/// Where the slot `slot` of the table begins; the table's first two places
/// hold the header.
pub open spec fn spec_slot_start(slot: int) -> int {
    32 + 16 * slot
}

/// The number of slots of a table of `slot_pages` pages.
pub open spec fn spec_slot_count(slot_pages: u32) -> nat {
    if slot_pages == 0 {
        0
    } else {
        (256 * slot_pages - 2) as nat
    }
}

/// The number of blocks that a blob with a record of `length` bytes takes.
pub open spec fn spec_blob_blocks(length: int) -> int {
    (16 + length + 12 + 15) / 16
}

/// The record of the slot `slot`, or nothing where the slot is free.
///
/// The slot must lie in the file and carry the slot magic. A slot in use
/// must point to a blob that lies in the file, opens and closes with the
/// blob magics, names the slot's package, gives the same length at both
/// ends, and takes the blocks the slot says. The checksum at its end must be
/// that of its head and record.
pub open spec fn spec_slot_record(data: Seq<u8>, slot: int) -> Result<
    Option<Seq<u8>>,
    ContainerFault,
> {
    let at = spec_slot_start(slot);
    let bad = Err::<Option<Seq<u8>>, ContainerFault>(ContainerFault::BadSlot { slot: slot as u32 });
    if at + 16 > data.len() {
        Err(ContainerFault::Truncated)
    } else if spec_u32_le(data, at) != NDB_SLOT_MAGIC {
        bad
    } else if spec_u32_le(data, at + 4) == 0 {
        Ok(None)
    } else {
        let blob = 16 * spec_u32_le(data, at + 8);
        if blob + 16 > data.len() {
            bad
        } else {
            let length = spec_u32_le(data, blob + 12);
            let tail = blob + 16 + length;
            if spec_u32_le(data, blob) != NDB_BLOB_MAGIC {
                bad
            } else if spec_u32_le(data, blob + 4) != spec_u32_le(data, at + 4) {
                bad
            } else if spec_u32_le(data, at + 12) != spec_blob_blocks(length) {
                bad
            } else if tail + 12 > data.len() {
                bad
            } else if spec_u32_le(data, tail + 4) != length {
                bad
            } else if spec_u32_le(data, tail + 8) != NDB_BLOB_END_MAGIC {
                bad
            } else if spec_u32_le(data, tail) != spec_adler32(data.subrange(blob, tail)) {
                Err(ContainerFault::BadChecksum { slot: slot as u32 })
            } else {
                Ok(Some(data.subrange(blob + 16, tail)))
            }
        }
    }
}

/// The records of the first `n` slots, in the order of the table, or the
/// fault of the first slot among them that has one.
pub open spec fn spec_slot_records(data: Seq<u8>, n: nat) -> Result<Seq<Seq<u8>>, ContainerFault>
    decreases n,
{
    if n == 0 {
        Ok(Seq::empty())
    } else {
        match spec_slot_records(data, (n - 1) as nat) {
            Err(e) => Err(e),
            Ok(before) => match spec_slot_record(data, n - 1) {
                Err(e) => Err(e),
                Ok(None) => Ok(before),
                Ok(Some(record)) => Ok(before.push(record)),
            },
        }
    }
}

/// Once a slot is at fault, the slots after it change nothing.
proof fn lemma_slot_records_fault(data: Seq<u8>, m: nat, n: nat)
    requires
        m <= n,
        spec_slot_records(data, m) is Err,
    ensures
        spec_slot_records(data, n) == spec_slot_records(data, m),
    decreases n,
{
    if m < n {
        lemma_slot_records_fault(data, m, (n - 1) as nat);
    }
}

/// An NDB database image whose header has been accepted.
#[derive(Debug)]
pub struct Ndb {
    data: Vec<u8>,
    slot_pages: u32,
}

/// What an `Ndb` holds, as a mathematical value.
pub struct NdbView {
    pub data: Seq<u8>,
    pub slot_pages: u32,
}

impl View for Ndb {
    type V = NdbView;

    closed spec fn view(&self) -> NdbView {
        NdbView { data: self.data@, slot_pages: self.slot_pages }
    }
}

/// What opening the image `data` as an NDB database gives.
pub open spec fn spec_ndb_open(data: Seq<u8>) -> Result<NdbView, RpmdbError> {
    if data.len() < 32 {
        Err(RpmdbError::UnexpectedEof)
    } else if !spec_is_ndb(data) {
        Err(RpmdbError::InvalidNdbFile)
    } else if spec_u32_le(data, 12) > NDB_MAX_SLOT_PAGES {
        Err(RpmdbError::MalformedContainer(ContainerFault::TooManySlots))
    } else if data.len() < 4096 * spec_u32_le(data, 12) {
        Err(RpmdbError::MalformedContainer(ContainerFault::Truncated))
    } else {
        Ok(NdbView { data, slot_pages: spec_u32_le(data, 12) as u32 })
    }
}

/// The records of an NDB database, in the order of its slot table.
pub open spec fn spec_ndb_records(ndb: NdbView) -> Result<Seq<Seq<u8>>, ContainerFault> {
    spec_slot_records(ndb.data, spec_slot_count(ndb.slot_pages))
}

impl Ndb {
    /// The header was accepted: the slot table has between one and 2048
    /// pages, and the image holds them.
    #[verifier::type_invariant]
    spec fn well_formed(self) -> bool {
        &&& 1 <= self.slot_pages <= NDB_MAX_SLOT_PAGES
        &&& self.data@.len() >= 4096 * self.slot_pages
    }

    /// Accepts a database image as an NDB file.
    ///
    /// An image too short for the header is an error of its own. An image
    /// whose header does not carry the magic, the version zero and a slot
    /// table of at least one page is not an NDB file, which is the one
    /// outcome after which another format may be tried. A header that is
    /// accepted must announce at most 2048 pages of slots, and the image
    /// must hold them.
    pub fn open(data: &[u8]) -> (r: Result<Ndb, RpmdbError>)
        ensures
            match spec_ndb_open(data@) {
                Ok(view) => r matches Ok(ndb) && ndb@ == view,
                Err(e) => r matches Err(f) && f == e,
            },
    {
        if data.len() < NDB_HEADER_SIZE {
            return Err(RpmdbError::UnexpectedEof);
        }
        let magic: u32 = read_u32(data, 0, false);
        let version: u32 = read_u32(data, 4, false);
        let slot_pages: u32 = read_u32(data, 12, false);
        if magic != NDB_HEADER_MAGIC || version != NDB_VERSION || slot_pages == 0 {
            return Err(RpmdbError::InvalidNdbFile);
        }
        if slot_pages > NDB_MAX_SLOT_PAGES {
            return Err(RpmdbError::MalformedContainer(ContainerFault::TooManySlots));
        }
        if (data.len() as u64) < 4096 * (slot_pages as u64) {
            return Err(RpmdbError::MalformedContainer(ContainerFault::Truncated));
        }
        let image: Vec<u8> = copy_range(data, 0, data.len());
        assert(image@ =~= data@);
        Ok(Ndb { data: image, slot_pages })
    }

    /// Reads the record of one slot.
    fn slot_record(&self, slot: u32) -> (r: Result<Option<Vec<u8>>, ContainerFault>)
        ensures
            match spec_slot_record(self@.data, slot as int) {
                Err(e) => r == Err::<Option<Vec<u8>>, ContainerFault>(e),
                Ok(None) => r == Ok::<Option<Vec<u8>>, ContainerFault>(None),
                Ok(Some(record)) => r matches Ok(Some(v)) && v@ == record,
            },
    {
        let data: &[u8] = self.data.as_slice();
        let total: u64 = data.len() as u64;
        let at: u64 = 32 + 16 * (slot as u64);
        if at + 16 > total {
            return Err(ContainerFault::Truncated);
        }
        let at: usize = at as usize;
        let bad = ContainerFault::BadSlot { slot };
        if read_u32(data, at, false) != NDB_SLOT_MAGIC {
            return Err(bad);
        }
        let package: u32 = read_u32(data, at + 4, false);
        if package == 0 {
            return Ok(None);
        }
        let blob: u64 = NDB_BLOCK_SIZE * (read_u32(data, at + 8, false) as u64);
        let blocks: u32 = read_u32(data, at + 12, false);
        if blob + 16 > total {
            return Err(bad);
        }
        let blob: usize = blob as usize;
        let length: u32 = read_u32(data, blob + 12, false);
        if read_u32(data, blob, false) != NDB_BLOB_MAGIC {
            return Err(bad);
        }
        if read_u32(data, blob + 4, false) != package {
            return Err(bad);
        }
        if blocks as u64 != (16 + length as u64 + 12 + 15) / 16 {
            return Err(bad);
        }
        let tail: u64 = blob as u64 + 16 + length as u64;
        if tail + 12 > total {
            return Err(bad);
        }
        let tail: usize = tail as usize;
        if read_u32(data, tail + 4, false) != length {
            return Err(bad);
        }
        if read_u32(data, tail + 8, false) != NDB_BLOB_END_MAGIC {
            return Err(bad);
        }
        if read_u32(data, tail, false) != adler32(slice_subrange(data, blob, tail)) {
            return Err(ContainerFault::BadChecksum { slot });
        }
        Ok(Some(copy_range(data, blob + 16, tail)))
    }

    /// Reads every record, in the order of the slot table.
    ///
    /// Free slots are passed over. The first slot that is out of place, or
    /// whose blob is, or whose checksum does not match, fails the read: no
    /// record is handed out of a file that may have been misread.
    pub fn records(&self) -> (r: Result<Vec<Vec<u8>>, ContainerFault>)
        ensures
            match spec_ndb_records(self@) {
                Ok(records) => r matches Ok(v) && records_view(v@) == records,
                Err(e) => r == Err::<Vec<Vec<u8>>, ContainerFault>(e),
            },
    {
        proof {
            use_type_invariant(self);
        }
        let count: u32 = 256 * self.slot_pages - 2;
        let mut out: Vec<Vec<u8>> = Vec::new();
        let mut slot: u32 = 0;
        assert(records_view(out@) =~= Seq::<Seq<u8>>::empty());
        while slot < count
            invariant
                slot <= count,
                count == spec_slot_count(self.slot_pages),
                spec_slot_records(self@.data, slot as nat) == Ok::<Seq<Seq<u8>>, ContainerFault>(
                    records_view(out@),
                ),
            decreases count - slot,
        {
            match self.slot_record(slot) {
                Err(e) => {
                    proof {
                        assert(spec_slot_records(self@.data, (slot + 1) as nat) == Err::<
                            Seq<Seq<u8>>,
                            ContainerFault,
                        >(e));
                        lemma_slot_records_fault(self@.data, (slot + 1) as nat, count as nat);
                    }
                    return Err(e);
                },
                Ok(None) => {},
                Ok(Some(record)) => {
                    let ghost before = records_view(out@);
                    out.push(record);
                    assert(records_view(out@) =~= before.push(record@));
                },
            }
            slot += 1;
        }
        Ok(out)
    }
}

/// What a read of an NDB database comes back with: the records of its slot
/// table, or the fault of the first slot that has one.
pub open spec fn spec_ndb_read(ndb: NdbView) -> Result<Seq<Seq<u8>>, RpmdbError> {
    match spec_ndb_records(ndb) {
        Ok(records) => Ok(records),
        Err(fault) => Err(RpmdbError::MalformedContainer(fault)),
    }
}

impl DBI for Ndb {
    open spec fn spec_read(&self) -> Result<Seq<Seq<u8>>, RpmdbError> {
        spec_ndb_read(self@)
    }

    fn read(&mut self) -> (r: Result<Vec<Vec<u8>>, RpmdbError>) {
        match self.records() {
            Ok(records) => Ok(records),
            Err(fault) => Err(RpmdbError::MalformedContainer(fault)),
        }
    }
}

} // verus!
