//! The SQLite container.
//!
//! A database image is taken for SQLite by the sixteen bytes it begins with.
//! What the database holds is SQLite's to say: this library reads no SQLite
//! file itself. Whoever selects this backend asks SQLite for the `blob`
//! column of the table `Packages` and hands over what it answered, the rows
//! in the order of the query or the text of its failure.
use crate::bytes::{copy_range, records_view};
use crate::errors::RpmdbError;
use crate::DBI;
use vstd::prelude::*;

verus! {

/// The bytes that every SQLite database begins with: "SQLite format 3" and
/// a zero byte.
pub open spec fn sqlite_magic() -> Seq<u8> {
    seq![
        0x53u8, 0x51u8, 0x4cu8, 0x69u8, 0x74u8, 0x65u8, 0x20u8, 0x66u8, 0x6fu8, 0x72u8, 0x6du8,
        0x61u8, 0x74u8, 0x20u8, 0x33u8, 0x00u8,
    ]
}

/// Whether `data` begins with the SQLite signature.
pub open spec fn spec_is_sqlite(data: Seq<u8>) -> bool {
    data.len() >= 16 && data.subrange(0, 16) == sqlite_magic()
}

/// What checking the image `data` for the SQLite signature gives.
pub open spec fn spec_check_sqlite(data: Seq<u8>) -> Result<(), RpmdbError> {
    if data.len() < 16 {
        Err(RpmdbError::UnexpectedEof)
    } else if !spec_is_sqlite(data) {
        Err(RpmdbError::InvalidSqliteFile)
    } else {
        Ok(())
    }
}

/// What SQLite answered, as a mathematical value: the rows, or the text of
/// its failure.
pub open spec fn answer_view(answer: Result<Vec<Vec<u8>>, String>) -> Result<Seq<Seq<u8>>, String> {
    match answer {
        Ok(rows) => Ok(records_view(rows@)),
        Err(text) => Err(text),
    }
}

/// What a read of an SQLite database comes back with: the rows that SQLite
/// gave, as they are, or its failure with the text it gave.
pub open spec fn spec_sqlite_read(answer: Result<Seq<Seq<u8>>, String>) -> Result<
    Seq<Seq<u8>>,
    RpmdbError,
> {
    match answer {
        Ok(rows) => Ok(rows),
        Err(text) => Err(RpmdbError::Sqlite(text)),
    }
}

/// What opening the image `data` as an SQLite database gives, `answer`
/// being what SQLite said of it.
pub open spec fn spec_sqlite_open(data: Seq<u8>, answer: Result<Seq<Seq<u8>>, String>) -> Result<
    Result<Seq<Seq<u8>>, String>,
    RpmdbError,
> {
    match spec_check_sqlite(data) {
        Err(e) => Err(e),
        Ok(()) => Ok(answer),
    }
}

/// An SQLite database, with what SQLite answered when asked for its
/// records.
#[derive(Debug)]
pub struct SqliteDB {
    answer: Result<Vec<Vec<u8>>, String>,
}

impl View for SqliteDB {
    type V = Result<Seq<Seq<u8>>, String>;

    closed spec fn view(&self) -> Result<Seq<Seq<u8>>, String> {
        answer_view(self.answer)
    }
}

/// Copies each record.
fn copy_records(records: &Vec<Vec<u8>>) -> (r: Vec<Vec<u8>>)
    ensures
        records_view(r@) == records_view(records@),
{
    let n: usize = records.len();
    let mut out: Vec<Vec<u8>> = Vec::new();
    let mut i: usize = 0;
    while i < n
        invariant
            i <= n,
            n == records@.len(),
            out@.len() == i,
            forall|j: int| 0 <= j < i ==> out@[j]@ == records@[j]@,
        decreases n - i,
    {
        let record: &[u8] = records[i].as_slice();
        let copy: Vec<u8> = copy_range(record, 0, record.len());
        assert(copy@ =~= records@[i as int]@);
        out.push(copy);
        i += 1;
    }
    assert(records_view(out@) =~= records_view(records@));
    out
}

impl SqliteDB {
    /// Checks that the image begins with the SQLite signature.
    ///
    /// An image of fewer than sixteen bytes is an error of its own. One of
    /// sixteen bytes or more that begins otherwise is not an SQLite
    /// database, which is the one outcome after which another format may be
    /// tried.
    pub fn check_sqlite(data: &[u8]) -> (r: Result<(), RpmdbError>)
        ensures
            match spec_check_sqlite(data@) {
                Ok(()) => r is Ok,
                Err(e) => r matches Err(f) && f == e,
            },
    {
        if data.len() < 16 {
            return Err(RpmdbError::UnexpectedEof);
        }
        let same: bool = data[0] == 0x53 && data[1] == 0x51 && data[2] == 0x4c && data[3] == 0x69
            && data[4] == 0x74 && data[5] == 0x65 && data[6] == 0x20 && data[7] == 0x66 && data[8]
            == 0x6f && data[9] == 0x72 && data[10] == 0x6d && data[11] == 0x61 && data[12] == 0x74
            && data[13] == 0x20 && data[14] == 0x33 && data[15] == 0x00;
        proof {
            let head = data@.subrange(0, 16);
            if same {
                assert(head =~= sqlite_magic());
            } else {
                assert(head[0] == data@[0] && head[1] == data@[1] && head[2] == data@[2]
                    && head[3] == data@[3] && head[4] == data@[4] && head[5] == data@[5]
                    && head[6] == data@[6] && head[7] == data@[7] && head[8] == data@[8]
                    && head[9] == data@[9] && head[10] == data@[10] && head[11] == data@[11]
                    && head[12] == data@[12] && head[13] == data@[13] && head[14] == data@[14]
                    && head[15] == data@[15]);
            }
        }
        if same {
            Ok(())
        } else {
            Err(RpmdbError::InvalidSqliteFile)
        }
    }

    /// Accepts a database image as an SQLite file, by its signature, and
    /// keeps what SQLite answered when asked for its records.
    pub fn open(data: &[u8], answer: Result<Vec<Vec<u8>>, String>) -> (r: Result<
        SqliteDB,
        RpmdbError,
    >)
        ensures
            match spec_sqlite_open(data@, answer_view(answer)) {
                Ok(view) => r matches Ok(db) && db@ == view,
                Err(e) => r matches Err(f) && f == e,
            },
    {
        match Self::check_sqlite(data) {
            Err(e) => Err(e),
            Ok(()) => Ok(SqliteDB { answer }),
        }
    }
}

impl DBI for SqliteDB {
    open spec fn spec_read(&self) -> Result<Seq<Seq<u8>>, RpmdbError> {
        spec_sqlite_read(self@)
    }

    fn read(&mut self) -> (r: Result<Vec<Vec<u8>>, RpmdbError>) {
        match &self.answer {
            Ok(rows) => Ok(copy_records(rows)),
            Err(text) => Err(RpmdbError::Sqlite(text.clone())),
        }
    }
}

} // verus!
