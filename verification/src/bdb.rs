//! The Berkeley DB hash container.
//!
//! The file is a sequence of pages of one size. Page zero is the metadata
//! page; it gives the magic, from whose byte order that of every other
//! integer in the file follows, the page size and the number of the last
//! page. Every page begins with a header of 26 bytes that holds, among other
//! things, the number of the next page (at 16), the number of entries (at
//! 20), a second 16-bit count (at 22) and the page's kind (at 25).
//!
//! A hash page carries an index of 16-bit offsets right after its header,
//! one for each item on the page. Items come in pairs, a key and then its
//! value, and are laid down from the end of the page towards the index, so
//! an item ends where the item before it in the index begins. An item begins
//! with a byte for its kind. A value is either held on the page itself, or
//! is a reference of twelve bytes to a chain of overflow pages, each of
//! which says how many of its bytes belong to the value and which page
//! comes next.
use crate::bytes::{
    copy_range, push_range, read_u16, read_u32, records_view, spec_u16, spec_u32, spec_u32_be,
    spec_u32_le,
};
use crate::errors::{ContainerFault, RpmdbError};
use crate::DBI;
use vstd::prelude::*;

verus! {

/// The size of the header of the metadata page.
pub const BDB_METADATA_SIZE: usize = 72;

pub const BDB_HASH_MAGIC: u32 = 0x0006_1561;

pub const PAGE_HASH_UNSORTED: u8 = 2;

pub const PAGE_OVERFLOW: u8 = 7;

pub const PAGE_HASH_METADATA: u8 = 8;

pub const PAGE_HASH: u8 = 13;

/// An item held on the page itself.
pub const ITEM_KEYDATA: u8 = 1;

/// An item that refers to a chain of overflow pages.
pub const ITEM_OFFPAGE: u8 = 3;

/// What a `Bdb` holds, as a mathematical value.
pub struct BdbView {
    pub data: Seq<u8>,
    pub page_size: u32,
    pub last_page: u32,
    pub big_endian: bool,
}

/// The page sizes that the format allows.
pub open spec fn spec_valid_page_size(size: u32) -> bool {
    size == 512 || size == 1024 || size == 2048 || size == 4096 || size == 8192 || size == 16384
        || size == 32768 || size == 65536
}

/// Tells whether `size` is a page size that the format allows.
pub fn valid_page_size(size: u32) -> (r: bool)
    ensures
        r == spec_valid_page_size(size),
{
    size == 512 || size == 1024 || size == 2048 || size == 4096 || size == 8192 || size == 16384
        || size == 32768 || size == 65536
}

/// What opening the image `data` as a hash database gives.
pub open spec fn spec_bdb_open(data: Seq<u8>) -> Result<BdbView, ContainerFault> {
    if data.len() < 72 {
        Err(ContainerFault::Truncated)
    } else if spec_u32_le(data, 12) != BDB_HASH_MAGIC && spec_u32_be(data, 12) != BDB_HASH_MAGIC {
        Err(ContainerFault::BadMagic)
    } else {
        let big_endian = spec_u32_le(data, 12) != BDB_HASH_MAGIC;
        let page_size = spec_u32(data, 20, big_endian) as u32;
        if data[24] != 0 {
            Err(ContainerFault::Encrypted)
        } else if data[25] != PAGE_HASH_METADATA {
            Err(ContainerFault::BadPageType)
        } else if !spec_valid_page_size(page_size) {
            Err(ContainerFault::BadPageSize)
        } else {
            Ok(
                BdbView {
                    data,
                    page_size,
                    last_page: spec_u32(data, 32, big_endian) as u32,
                    big_endian,
                },
            )
        }
    }
}

/// Where the page `page` begins in the file.
pub open spec fn spec_page_start(db: BdbView, page: int) -> int {
    page * db.page_size
}

/// Whether the file holds the whole of the page `page`.
pub open spec fn spec_page_in_file(db: BdbView, page: int) -> bool {
    spec_page_start(db, page) + db.page_size <= db.data.len()
}

/// The value that a chain of overflow pages holds, the chain beginning at
/// the page `page` and followed for at most `hops` pages.
///
/// Page zero ends a chain. Every page of the chain must lie in the file, be
/// an overflow page, and hold within itself the bytes it claims; its bytes
/// are followed by those of the rest of the chain. A chain that has not
/// ended after `hops` pages is broken.
pub open spec fn spec_chain(db: BdbView, page: u32, hops: nat) -> Result<Seq<u8>, ContainerFault>
    decreases hops,
{
    let at = spec_page_start(db, page as int);
    if page == 0 {
        Ok(Seq::empty())
    } else if hops == 0 || !spec_page_in_file(db, page as int) {
        Err(ContainerFault::BadChain { page })
    } else {
        let length = spec_u16(db.data, at + 22, db.big_endian);
        let next = spec_u32(db.data, at + 16, db.big_endian) as u32;
        if db.data[at + 25] != PAGE_OVERFLOW || 26 + length > db.page_size {
            Err(ContainerFault::BadChain { page })
        } else {
            match spec_chain(db, next, (hops - 1) as nat) {
                Err(e) => Err(e),
                Ok(rest) => Ok(db.data.subrange(at + 26, at + 26 + length) + rest),
            }
        }
    }
}

/// The value of the item that the place `index` of the index of the hash
/// page `page` points to.
///
/// The item must begin on the page. A reference to an overflow chain must
/// lie on the page and gives the value of its chain, which may be as long as
/// the file has pages. An item held on the page gives the bytes between its
/// kind byte and the beginning of the item before it in the index. Any other
/// kind of item holds no record.
pub open spec fn spec_item(db: BdbView, page: u32, index: int) -> Result<Seq<u8>, ContainerFault> {
    let base = spec_page_start(db, page as int);
    let offset = spec_u16(db.data, base + 26 + 2 * index, db.big_endian);
    let end = spec_u16(db.data, base + 26 + 2 * (index - 1), db.big_endian);
    if offset >= db.page_size {
        Err(ContainerFault::BadPageLayout { page })
    } else if db.data[base + offset] == ITEM_OFFPAGE {
        if offset + 12 > db.page_size {
            Err(ContainerFault::BadPageLayout { page })
        } else {
            spec_chain(
                db,
                spec_u32(db.data, base + offset + 4, db.big_endian) as u32,
                (db.last_page + 1) as nat,
            )
        }
    } else if db.data[base + offset] == ITEM_KEYDATA {
        if offset + 1 > end || end > db.page_size {
            Err(ContainerFault::BadPageLayout { page })
        } else {
            Ok(db.data.subrange(base + offset + 1, base + end))
        }
    } else {
        Err(ContainerFault::UnsupportedItem { page })
    }
}

/// The values of the first `n` pairs of the hash page `page`, in the order
/// of its index, or the fault of the first among them that has one.
pub open spec fn spec_pairs(db: BdbView, page: u32, n: nat) -> Result<
    Seq<Seq<u8>>,
    ContainerFault,
>
    decreases n,
{
    if n == 0 {
        Ok(Seq::empty())
    } else {
        match spec_pairs(db, page, (n - 1) as nat) {
            Err(e) => Err(e),
            Ok(before) => match spec_item(db, page, 2 * (n - 1) + 1) {
                Err(e) => Err(e),
                Ok(value) => Ok(before.push(value)),
            },
        }
    }
}

/// Once a pair is at fault, the pairs after it change nothing.
proof fn lemma_pairs_fault(db: BdbView, page: u32, m: nat, n: nat)
    requires
        m <= n,
        spec_pairs(db, page, m) is Err,
    ensures
        spec_pairs(db, page, n) == spec_pairs(db, page, m),
    decreases n,
{
    if m < n {
        lemma_pairs_fault(db, page, m, (n - 1) as nat);
    }
}

/// The records that the page `page` holds.
///
/// The page must lie in the file. A page that is not a hash page holds
/// none. The entries of a hash page come in pairs, and its index must lie on
/// the page; the records are the values of its pairs.
pub open spec fn spec_page_records(db: BdbView, page: u32) -> Result<Seq<Seq<u8>>, ContainerFault> {
    let base = spec_page_start(db, page as int);
    let entries = spec_u16(db.data, base + 20, db.big_endian);
    if !spec_page_in_file(db, page as int) {
        Err(ContainerFault::Truncated)
    } else if db.data[base + 25] != PAGE_HASH && db.data[base + 25] != PAGE_HASH_UNSORTED {
        Ok(Seq::empty())
    } else if entries % 2 != 0 || 26 + 2 * entries > db.page_size {
        Err(ContainerFault::BadPageLayout { page })
    } else {
        spec_pairs(db, page, (entries / 2) as nat)
    }
}

/// The records of the first `n` pages, in the order of the file, or the
/// fault of the first page among them that has one.
pub open spec fn spec_pages(db: BdbView, n: nat) -> Result<Seq<Seq<u8>>, ContainerFault>
    decreases n,
{
    if n == 0 {
        Ok(Seq::empty())
    } else {
        match spec_pages(db, (n - 1) as nat) {
            Err(e) => Err(e),
            Ok(before) => match spec_page_records(db, (n - 1) as u32) {
                Err(e) => Err(e),
                Ok(records) => Ok(before + records),
            },
        }
    }
}

/// Once a page is at fault, the pages after it change nothing.
proof fn lemma_pages_fault(db: BdbView, m: nat, n: nat)
    requires
        m <= n,
        spec_pages(db, m) is Err,
    ensures
        spec_pages(db, n) == spec_pages(db, m),
    decreases n,
{
    if m < n {
        lemma_pages_fault(db, m, (n - 1) as nat);
    }
}

/// The records of a hash database: those of its pages up to the last, in
/// the order of the file.
pub open spec fn spec_bdb_records(db: BdbView) -> Result<Seq<Seq<u8>>, ContainerFault> {
    spec_pages(db, (db.last_page + 1) as nat)
}

/// A hash database image whose metadata page has been accepted.
#[derive(Debug)]
pub struct Bdb {
    data: Vec<u8>,
    page_size: u32,
    last_page: u32,
    big_endian: bool,
}

impl View for Bdb {
    type V = BdbView;

    closed spec fn view(&self) -> BdbView {
        BdbView {
            data: self.data@,
            page_size: self.page_size,
            last_page: self.last_page,
            big_endian: self.big_endian,
        }
    }
}

impl Bdb {
    /// The metadata page was accepted: the page size is one of those the
    /// format allows.
    #[verifier::type_invariant]
    spec fn well_formed(self) -> bool {
        spec_valid_page_size(self.page_size)
    }

    /// Accepts a database image as a Berkeley DB hash file.
    ///
    /// The image must hold the metadata header, carry the hash magic in one
    /// byte order or the other, be unencrypted, have a hash metadata page as
    /// its page zero, and a page size the format allows.
    pub fn open(data: &[u8]) -> (r: Result<Bdb, ContainerFault>)
        ensures
            match spec_bdb_open(data@) {
                Ok(view) => r matches Ok(db) && db@ == view,
                Err(e) => r matches Err(f) && f == e,
            },
    {
        if data.len() < BDB_METADATA_SIZE {
            return Err(ContainerFault::Truncated);
        }
        let big_endian: bool = if read_u32(data, 12, false) == BDB_HASH_MAGIC {
            false
        } else if read_u32(data, 12, true) == BDB_HASH_MAGIC {
            true
        } else {
            return Err(ContainerFault::BadMagic);
        };
        if data[24] != 0 {
            return Err(ContainerFault::Encrypted);
        }
        if data[25] != PAGE_HASH_METADATA {
            return Err(ContainerFault::BadPageType);
        }
        let page_size: u32 = read_u32(data, 20, big_endian);
        if !valid_page_size(page_size) {
            return Err(ContainerFault::BadPageSize);
        }
        let last_page: u32 = read_u32(data, 32, big_endian);
        let image: Vec<u8> = copy_range(data, 0, data.len());
        assert(image@ =~= data@);
        Ok(Bdb { data: image, page_size, last_page, big_endian })
    }

    /// Where the page `page` begins, if the file holds the whole of it.
    fn page_start(&self, page: u32) -> (r: Option<usize>)
        ensures
            r is Some == spec_page_in_file(self@, page as int),
            r matches Some(start) ==> start == spec_page_start(self@, page as int),
    {
        proof {
            use_type_invariant(self);
        }
        assert(page * self.page_size <= 0xffff_ffff * 0x1_0000) by (nonlinear_arith)
            requires
                0 <= page <= 0xffff_ffff,
                0 <= self.page_size <= 0x1_0000,
        ;
        let start: u64 = (page as u64) * (self.page_size as u64);
        if start + self.page_size as u64 > self.data.len() as u64 {
            None
        } else {
            Some(start as usize)
        }
    }

    /// Follows a chain of overflow pages from the page `first`.
    #[verifier::loop_isolation(false)]
    fn chain(&self, first: u32) -> (r: Result<Vec<u8>, ContainerFault>)
        ensures
            match spec_chain(self@, first, (self@.last_page + 1) as nat) {
                Ok(value) => r matches Ok(v) && v@ == value,
                Err(e) => r == Err::<Vec<u8>, ContainerFault>(e),
            },
    {
        proof {
            use_type_invariant(self);
        }
        let ghost whole = spec_chain(self@, first, (self@.last_page + 1) as nat);
        let data: &[u8] = self.data.as_slice();
        let mut out: Vec<u8> = Vec::new();
        let mut page: u32 = first;
        let mut hops: u64 = self.last_page as u64 + 1;
        assert(whole is Ok ==> out@ + whole->Ok_0 =~= whole->Ok_0);
        while page != 0
            invariant
                data@ == self@.data,
                spec_valid_page_size(self@.page_size),
                whole == match spec_chain(self@, page, hops as nat) {
                    Ok(rest) => Ok::<Seq<u8>, ContainerFault>(out@ + rest),
                    Err(e) => Err(e),
                },
            decreases hops,
        {
            let broken = ContainerFault::BadChain { page };
            if hops == 0 {
                return Err(broken);
            }
            let at: usize = match self.page_start(page) {
                None => {
                    return Err(broken);
                },
                Some(at) => at,
            };
            let length: usize = read_u16(data, at + 22, self.big_endian) as usize;
            let next: u32 = read_u32(data, at + 16, self.big_endian);
            if data[at + 25] != PAGE_OVERFLOW || 26 + length > self.page_size as usize {
                return Err(broken);
            }
            let ghost before = out@;
            let ghost rest = spec_chain(self@, next, (hops - 1) as nat);
            push_range(&mut out, data, at + 26, at + 26 + length);
            proof {
                if rest is Ok {
                    assert(before + (data@.subrange(at + 26, at + 26 + length) + rest->Ok_0)
                        =~= out@ + rest->Ok_0);
                }
            }
            page = next;
            hops -= 1;
        }
        assert(out@ + Seq::<u8>::empty() =~= out@);
        Ok(out)
    }

    /// Reads the value of the item at the place `index` of the index of the
    /// hash page `page`, which begins at `base`.
    fn item(&self, page: u32, base: usize, index: usize) -> (r: Result<Vec<u8>, ContainerFault>)
        requires
            spec_page_in_file(self@, page as int),
            base == spec_page_start(self@, page as int),
            index >= 1,
            26 + 2 * index + 2 <= self@.page_size,
        ensures
            match spec_item(self@, page, index as int) {
                Ok(value) => r matches Ok(v) && v@ == value,
                Err(e) => r == Err::<Vec<u8>, ContainerFault>(e),
            },
    {
        proof {
            use_type_invariant(self);
        }
        let data: &[u8] = self.data.as_slice();
        let total: usize = data.len();
        let size: usize = self.page_size as usize;
        let offset: usize = read_u16(data, base + 26 + 2 * index, self.big_endian) as usize;
        let end: usize = read_u16(data, base + 26 + 2 * (index - 1), self.big_endian) as usize;
        let misplaced = ContainerFault::BadPageLayout { page };
        if offset >= size {
            return Err(misplaced);
        }
        let kind: u8 = data[base + offset];
        if kind == ITEM_OFFPAGE {
            if offset + 12 > size {
                return Err(misplaced);
            }
            self.chain(read_u32(data, base + offset + 4, self.big_endian))
        } else if kind == ITEM_KEYDATA {
            if offset + 1 > end || end > size {
                return Err(misplaced);
            }
            Ok(copy_range(data, base + offset + 1, base + end))
        } else {
            Err(ContainerFault::UnsupportedItem { page })
        }
    }

    /// Reads the records that one page holds.
    #[verifier::loop_isolation(false)]
    fn page_records(&self, page: u32) -> (r: Result<Vec<Vec<u8>>, ContainerFault>)
        ensures
            match spec_page_records(self@, page) {
                Ok(records) => r matches Ok(v) && records_view(v@) == records,
                Err(e) => r == Err::<Vec<Vec<u8>>, ContainerFault>(e),
            },
    {
        proof {
            use_type_invariant(self);
        }
        let data: &[u8] = self.data.as_slice();
        let mut out: Vec<Vec<u8>> = Vec::new();
        assert(records_view(out@) =~= Seq::<Seq<u8>>::empty());
        let base: usize = match self.page_start(page) {
            None => {
                return Err(ContainerFault::Truncated);
            },
            Some(base) => base,
        };
        let kind: u8 = data[base + 25];
        if kind != PAGE_HASH && kind != PAGE_HASH_UNSORTED {
            return Ok(out);
        }
        let entries: usize = read_u16(data, base + 20, self.big_endian) as usize;
        if entries % 2 != 0 || 26 + 2 * entries > self.page_size as usize {
            return Err(ContainerFault::BadPageLayout { page });
        }
        let pairs: usize = entries / 2;
        let mut k: usize = 0;
        while k < pairs
            invariant
                k <= pairs,
                2 * pairs == entries,
                26 + 2 * entries <= self@.page_size,
                spec_page_in_file(self@, page as int),
                base == spec_page_start(self@, page as int),
                spec_pairs(self@, page, k as nat) == Ok::<Seq<Seq<u8>>, ContainerFault>(
                    records_view(out@),
                ),
            decreases pairs - k,
        {
            match self.item(page, base, 2 * k + 1) {
                Err(e) => {
                    proof {
                        assert(spec_pairs(self@, page, (k + 1) as nat) == Err::<
                            Seq<Seq<u8>>,
                            ContainerFault,
                        >(e));
                        lemma_pairs_fault(self@, page, (k + 1) as nat, pairs as nat);
                    }
                    return Err(e);
                },
                Ok(value) => {
                    let ghost before = records_view(out@);
                    out.push(value);
                    assert(records_view(out@) =~= before.push(value@));
                },
            }
            k += 1;
        }
        Ok(out)
    }

    /// Reads every record, in the order of the pages and, on each page, of
    /// its index.
    ///
    /// Only the values of the pairs are records; the keys are passed over.
    /// The first page that is out of place, or holds an item that is, fails
    /// the read.
    pub fn records(&self) -> (r: Result<Vec<Vec<u8>>, ContainerFault>)
        ensures
            match spec_bdb_records(self@) {
                Ok(records) => r matches Ok(v) && records_view(v@) == records,
                Err(e) => r == Err::<Vec<Vec<u8>>, ContainerFault>(e),
            },
    {
        let count: u64 = self.last_page as u64 + 1;
        let mut out: Vec<Vec<u8>> = Vec::new();
        let mut page: u64 = 0;
        assert(records_view(out@) =~= Seq::<Seq<u8>>::empty());
        while page < count
            invariant
                page <= count,
                count == self@.last_page + 1,
                spec_pages(self@, page as nat) == Ok::<Seq<Seq<u8>>, ContainerFault>(
                    records_view(out@),
                ),
            decreases count - page,
        {
            match self.page_records(page as u32) {
                Err(e) => {
                    proof {
                        assert(spec_pages(self@, (page + 1) as nat) == Err::<
                            Seq<Seq<u8>>,
                            ContainerFault,
                        >(e));
                        lemma_pages_fault(self@, (page + 1) as nat, count as nat);
                    }
                    return Err(e);
                },
                Ok(records) => {
                    let ghost before = records_view(out@);
                    let mut records = records;
                    let ghost added = records_view(records@);
                    out.append(&mut records);
                    assert(records_view(out@) =~= before + added);
                },
            }
            page += 1;
        }
        Ok(out)
    }
}

/// What a read of a hash database comes back with: the records of its
/// pages, or the fault of the first page that has one.
pub open spec fn spec_bdb_read(db: BdbView) -> Result<Seq<Seq<u8>>, RpmdbError> {
    match spec_bdb_records(db) {
        Ok(records) => Ok(records),
        Err(fault) => Err(RpmdbError::MalformedContainer(fault)),
    }
}

impl DBI for Bdb {
    open spec fn spec_read(&self) -> Result<Seq<Seq<u8>>, RpmdbError> {
        spec_bdb_read(self@)
    }

    fn read(&mut self) -> (r: Result<Vec<Vec<u8>>, RpmdbError>) {
        match self.records() {
            Ok(records) => Ok(records),
            Err(fault) => Err(RpmdbError::MalformedContainer(fault)),
        }
    }
}

} // verus!
