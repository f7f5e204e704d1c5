//! Reads the installed-package records of an RPM database image.
//!
//! A database comes in one of three container formats: SQLite, the
//! slot-indexed NDB format, or a Berkeley DB hash file. Whichever it is, each
//! stored record is a header blob: a tagged index over a data region. The
//! library works on the bytes of a database file and never touches the file
//! system itself; an SQLite database it leaves to SQLite, and takes the rows
//! that SQLite gave.
pub mod bdb;
pub mod bytes;
pub mod entry;
pub mod errors;
pub mod ndb;
pub mod order;
pub mod package;
pub mod rpmtags;
pub mod sqlite3;
pub mod value;

use crate::bdb::{spec_bdb_open, Bdb, BdbView};
use crate::bytes::records_view;
use crate::entry::{spec_from_bytes, spec_import, Hdrblob};
use crate::errors::RpmdbError;
use crate::ndb::{spec_ndb_open, Ndb, NdbView};
use crate::order::{sort_by_offset, spec_sort_by_offset};
use crate::package::{spec_assemble, Package, PackageView};
use crate::sqlite3::{spec_check_sqlite, SqliteDB};
use vstd::prelude::*;

verus! {

/// What a read came back with, as a mathematical value.
pub open spec fn read_outcome(r: Result<Vec<Vec<u8>>, RpmdbError>) -> Result<
    Seq<Seq<u8>>,
    RpmdbError,
> {
    match r {
        Ok(records) => Ok(records_view(records@)),
        Err(e) => Err(e),
    }
}

/// A source of raw records: one buffer for each stored package.
pub trait DBI: Sized {
    /// What a read of this source comes back with.
    spec fn spec_read(&self) -> Result<Seq<Seq<u8>>, RpmdbError>;

    /// Reads every record of the source, in the order in which it stores
    /// them. The source itself is left as it was.
    fn read(&mut self) -> (r: Result<Vec<Vec<u8>>, RpmdbError>)
        ensures
            read_outcome(r) == old(self).spec_read(),
            *final(self) == *old(self),
    ;
}

/// The backend that takes a database image: one of the three there are.
///
/// The two container formats that this library parses come with their
/// reader. SQLite comes as the bare answer that the image is SQLite's to
/// read; its records are had by asking SQLite and handing what it said to
/// `SqliteDB`.
#[derive(Debug)]
pub enum Backend {
    Sqlite,
    Ndb(Ndb),
    Bdb(Bdb),
}

/// What a `Backend` holds, as a mathematical value.
pub enum BackendView {
    Sqlite,
    Ndb(NdbView),
    Bdb(BdbView),
}

impl View for Backend {
    type V = BackendView;

    open spec fn view(&self) -> BackendView {
        match self {
            Backend::Sqlite => BackendView::Sqlite,
            Backend::Ndb(db) => BackendView::Ndb(db@),
            Backend::Bdb(db) => BackendView::Bdb(db@),
        }
    }
}

/// The backend that takes the database image `data`.
///
/// The formats are tried in a fixed order: SQLite, then NDB, then the hash
/// database. Only the answer that the image is not of a format lets the next
/// one be tried; any other error of a format is the result. The hash
/// database comes last, and all its errors are final.
pub open spec fn spec_open(data: Seq<u8>) -> Result<BackendView, RpmdbError> {
    match spec_check_sqlite(data) {
        Ok(()) => Ok(BackendView::Sqlite),
        Err(RpmdbError::InvalidSqliteFile) => match spec_ndb_open(data) {
            Ok(ndb) => Ok(BackendView::Ndb(ndb)),
            Err(RpmdbError::InvalidNdbFile) => match spec_bdb_open(data) {
                Ok(bdb) => Ok(BackendView::Bdb(bdb)),
                Err(fault) => Err(RpmdbError::MalformedContainer(fault)),
            },
            Err(e) => Err(e),
        },
        Err(e) => Err(e),
    }
}

/// That an image is not of a format never comes out of the selection: it
/// either makes the next format be tried, or, for the hash database, which
/// is the last, gives way to that format's own account of what is wrong.
pub proof fn law_mismatch_is_consumed(data: Seq<u8>)
    ensures
        spec_open(data) != Err::<BackendView, RpmdbError>(RpmdbError::InvalidSqliteFile),
        spec_open(data) != Err::<BackendView, RpmdbError>(RpmdbError::InvalidNdbFile),
{
}

/// Selects the backend for a database image.
pub fn open(data: &[u8]) -> (r: Result<Backend, RpmdbError>)
    ensures
        match spec_open(data@) {
            Ok(backend) => r matches Ok(b) && b@ == backend,
            Err(e) => r matches Err(f) && f == e,
        },
{
    match SqliteDB::check_sqlite(data) {
        Ok(()) => {
            return Ok(Backend::Sqlite);
        },
        Err(RpmdbError::InvalidSqliteFile) => {},
        Err(e) => {
            return Err(e);
        },
    }
    match Ndb::open(data) {
        Ok(db) => {
            return Ok(Backend::Ndb(db));
        },
        Err(RpmdbError::InvalidNdbFile) => {},
        Err(e) => {
            return Err(e);
        },
    }
    match Bdb::open(data) {
        Ok(db) => Ok(Backend::Bdb(db)),
        Err(fault) => Err(RpmdbError::MalformedContainer(fault)),
    }
}

/// The package that the raw record `data` decodes to: its preamble and
/// index are decoded, the value of each entry is taken out of the data
/// region, the entries are put in the order of their offsets, and the
/// package is assembled from them.
pub open spec fn spec_decode_record(data: Seq<u8>) -> Result<PackageView, RpmdbError> {
    match spec_from_bytes(data) {
        Err(e) => Err(RpmdbError::ParseBlob(e)),
        Ok((data_length, infos)) => match spec_import(data, data_length, infos) {
            Err(e) => Err(RpmdbError::ParseBlob(e)),
            Ok(entries) => match spec_assemble(spec_sort_by_offset(entries)) {
                Err(e) => Err(RpmdbError::ParseEntry(e)),
                Ok(package) => Ok(package),
            },
        },
    }
}

/// Decodes one raw record into a package.
pub fn decode_record(data: &[u8]) -> (r: Result<Package, RpmdbError>)
    ensures
        match spec_decode_record(data@) {
            Ok(package) => r matches Ok(p) && p@ == package,
            Err(e) => r matches Err(f) && f == e,
        },
{
    let blob: Hdrblob = match Hdrblob::from_bytes(data) {
        Err(e) => {
            return Err(RpmdbError::ParseBlob(e));
        },
        Ok(blob) => blob,
    };
    let mut entries = match blob.import(data) {
        Err(e) => {
            return Err(RpmdbError::ParseBlob(e));
        },
        Ok(entries) => entries,
    };
    sort_by_offset(&mut entries);
    match Package::try_from(entries) {
        Err(e) => Err(RpmdbError::ParseEntry(e)),
        Ok(package) => Ok(package),
    }
}

/// The views of a sequence of packages, in the same order.
pub open spec fn packages_view(packages: Seq<Package>) -> Seq<PackageView> {
    Seq::new(packages.len(), |i: int| packages[i]@)
}

/// The packages that the first `n` of `records` decode to, or the error of
/// the first among them that does not decode.
pub open spec fn spec_decode_first(records: Seq<Seq<u8>>, n: nat) -> Result<
    Seq<PackageView>,
    RpmdbError,
>
    decreases n,
{
    if n == 0 {
        Ok(Seq::empty())
    } else {
        match spec_decode_first(records, (n - 1) as nat) {
            Err(e) => Err(e),
            Ok(before) => match spec_decode_record(records[n - 1]) {
                Err(e) => Err(e),
                Ok(package) => Ok(before.push(package)),
            },
        }
    }
}

/// The packages that `records` decode to, one for each record and in the
/// same order, or the error of the first record that does not decode.
pub open spec fn spec_decode_records(records: Seq<Seq<u8>>) -> Result<
    Seq<PackageView>,
    RpmdbError,
> {
    spec_decode_first(records, records.len())
}

/// Once a record does not decode, the records after it change nothing.
proof fn lemma_decode_error(records: Seq<Seq<u8>>, m: nat, n: nat)
    requires
        m <= n,
        spec_decode_first(records, m) is Err,
    ensures
        spec_decode_first(records, n) == spec_decode_first(records, m),
    decreases n,
{
    if m < n {
        lemma_decode_error(records, m, (n - 1) as nat);
    }
}

/// What a list of packages, or the error in its place, is as a
/// mathematical value.
pub open spec fn packages_outcome(r: Result<Vec<Package>, RpmdbError>) -> Result<
    Seq<PackageView>,
    RpmdbError,
> {
    match r {
        Ok(packages) => Ok(packages_view(packages@)),
        Err(e) => Err(e),
    }
}

/// Decodes every raw record into a package. There are no partial results:
/// the first record that does not decode fails the whole.
pub fn decode_records(records: &Vec<Vec<u8>>) -> (r: Result<Vec<Package>, RpmdbError>)
    ensures
        packages_outcome(r) == spec_decode_records(records_view(records@)),
{
    let ghost views = records_view(records@);
    let n: usize = records.len();
    let mut out: Vec<Package> = Vec::new();
    let mut i: usize = 0;
    assert(packages_view(out@) =~= Seq::<PackageView>::empty());
    while i < n
        invariant
            i <= n,
            n == records@.len(),
            views == records_view(records@),
            spec_decode_first(views, i as nat) == Ok::<Seq<PackageView>, RpmdbError>(
                packages_view(out@),
            ),
        decreases n - i,
    {
        match decode_record(records[i].as_slice()) {
            Err(e) => {
                proof {
                    assert(spec_decode_first(views, (i + 1) as nat) == Err::<
                        Seq<PackageView>,
                        RpmdbError,
                    >(e));
                    lemma_decode_error(views, (i + 1) as nat, n as nat);
                }
                return Err(e);
            },
            Ok(package) => {
                let ghost before = packages_view(out@);
                out.push(package);
                assert(packages_view(out@) =~= before.push(package@));
            },
        }
        i += 1;
    }
    Ok(out)
}

/// What is made of the outcome of a read: its error, or the packages that
/// its records decode to.
pub open spec fn spec_packages_of(outcome: Result<Seq<Seq<u8>>, RpmdbError>) -> Result<
    Seq<PackageView>,
    RpmdbError,
> {
    match outcome {
        Err(e) => Err(e),
        Ok(records) => spec_decode_records(records),
    }
}

/// Turns the outcome of a read into packages.
pub fn packages_of(outcome: Result<Vec<Vec<u8>>, RpmdbError>) -> (r: Result<
    Vec<Package>,
    RpmdbError,
>)
    ensures
        packages_outcome(r) == spec_packages_of(read_outcome(outcome)),
{
    match outcome {
        Err(e) => Err(e),
        Ok(records) => decode_records(&records),
    }
}

/// Reads the packages of a database.
///
/// All the records of the backend are read, and each is decoded into a
/// package. The result is the full list, in the order in which the backend
/// stores the records, or the first error met on the way: that of the read,
/// or that of the first record that does not decode. The backend is left as
/// it was.
pub fn read_packages<D: DBI>(db: &mut D) -> (r: Result<Vec<Package>, RpmdbError>)
    ensures
        packages_outcome(r) == spec_packages_of(old(db).spec_read()),
        *final(db) == *old(db),
{
    let records = db.read();
    packages_of(records)
}

} // verus!
