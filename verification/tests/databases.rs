use rpmdb::bdb::Bdb;
use rpmdb::entry::Hdrblob;
use rpmdb::errors::{ContainerFault, RpmdbError};
use rpmdb::ndb::{adler32, Ndb};
use rpmdb::order::sort_by_offset;
use rpmdb::package::Package;
use rpmdb::sqlite3::SqliteDB;
use rpmdb::{open, read_packages, Backend, DBI};

const HEADER_MAGIC: [u8; 8] = [0x8e, 0xad, 0xe8, 0x01, 0, 0, 0, 0];

const PAGE: usize = 512;

/// One header entry to lay out: tag, type code, count and the bytes of its value.
struct Field {
    tag: i32,
    kind: u32,
    count: u32,
    value: Vec<u8>,
}

fn text(tag: i32, s: &str) -> Field {
    let mut value: Vec<u8> = s.as_bytes().to_vec();
    value.push(0);
    Field { tag, kind: 6, count: 1, value }
}

fn texts(tag: i32, list: &[&str]) -> Field {
    let mut value: Vec<u8> = Vec::new();
    for s in list {
        value.extend_from_slice(s.as_bytes());
        value.push(0);
    }
    Field { tag, kind: 8, count: list.len() as u32, value }
}

fn number(tag: i32, v: i32) -> Field {
    Field { tag, kind: 4, count: 1, value: v.to_be_bytes().to_vec() }
}

fn numbers(tag: i32, list: &[i32]) -> Field {
    let mut value: Vec<u8> = Vec::new();
    for v in list {
        value.extend_from_slice(&v.to_be_bytes());
    }
    Field { tag, kind: 4, count: list.len() as u32, value }
}

/// A header blob whose values lie in the data region in the order given.
fn header(fields: &[Field]) -> Vec<u8> {
    let mut index: Vec<u8> = Vec::new();
    let mut data: Vec<u8> = Vec::new();
    for f in fields {
        index.extend_from_slice(&f.tag.to_be_bytes());
        index.extend_from_slice(&f.kind.to_be_bytes());
        index.extend_from_slice(&(data.len() as u32).to_be_bytes());
        index.extend_from_slice(&f.count.to_be_bytes());
        data.extend_from_slice(&f.value);
    }
    let mut out: Vec<u8> = HEADER_MAGIC.to_vec();
    out.extend_from_slice(&(fields.len() as u32).to_be_bytes());
    out.extend_from_slice(&(data.len() as u32).to_be_bytes());
    out.extend_from_slice(&index);
    out.extend_from_slice(&data);
    out
}

fn bash() -> Vec<u8> {
    header(&[
        text(1000, "bash"),
        text(1001, "5.1.8"),
        text(1002, "2.el9"),
        number(1003, 1),
        number(1009, 7738634),
        text(1011, "(none)"),
        text(1014, "GPLv3+"),
        text(1022, "x86_64"),
        text(1044, "bash-5.1.8-2.el9.src.rpm"),
        texts(1047, &["bash", "config(bash)"]),
        texts(1049, &["filesystem", "libc.so.6()(64bit)"]),
        numbers(1116, &[0, 0, 1]),
        texts(1117, &["alias", "bash", "bash.1.gz"]),
        texts(1118, &["/usr/bin/", "/usr/share/man/man1/"]),
        text(5096, "(none)"),
    ])
}

fn zlib() -> Vec<u8> {
    header(&[text(1000, "zlib"), text(1001, "1.2.11"), text(1022, "aarch64")])
}

/// A record too long for one overflow page of 486 bytes.
fn glibc() -> Vec<u8> {
    let names: Vec<String> = (0..200).map(|i| format!("libc-{}.so", i)).collect();
    let list: Vec<&str> = names.iter().map(|s| s.as_str()).collect();
    header(&[text(1000, "glibc"), texts(1117, &list)])
}

fn records() -> Vec<Vec<u8>> {
    vec![bash(), zlib(), glibc()]
}

fn adler(bytes: &[u8]) -> u32 {
    let mut a: u32 = 1;
    let mut b: u32 = 0;
    for x in bytes {
        a = (a + *x as u32) % 65521;
        b = (b + a) % 65521;
    }
    (b << 16) | a
}

/// An NDB image with one page of slots; record `i` is package `i + 1` and
/// sits in slot `2 * i + 1`, so that free slots lie between those in use.
fn ndb_image(records: &[Vec<u8>]) -> Vec<u8> {
    let mut out: Vec<u8> = Vec::new();
    out.extend_from_slice(b"RpmP");
    out.extend_from_slice(&0u32.to_le_bytes());
    out.extend_from_slice(&1u32.to_le_bytes());
    out.extend_from_slice(&1u32.to_le_bytes());
    out.extend_from_slice(&[0u8; 16]);
    for _ in 0..254 {
        out.extend_from_slice(b"Slot");
        out.extend_from_slice(&[0u8; 12]);
    }
    for (i, record) in records.iter().enumerate() {
        let package: u32 = i as u32 + 1;
        let start: usize = out.len();
        out.extend_from_slice(b"BlbS");
        out.extend_from_slice(&package.to_le_bytes());
        out.extend_from_slice(&1u32.to_le_bytes());
        out.extend_from_slice(&(record.len() as u32).to_le_bytes());
        out.extend_from_slice(record);
        let sum: u32 = adler(&out[start..]);
        out.extend_from_slice(&sum.to_le_bytes());
        out.extend_from_slice(&(record.len() as u32).to_le_bytes());
        out.extend_from_slice(b"BlbE");
        while out.len() % 16 != 0 {
            out.push(0);
        }
        let slot: usize = 32 + 16 * (2 * i + 1);
        let blocks: u32 = ((out.len() - start) / 16) as u32;
        out[slot + 4..slot + 8].copy_from_slice(&package.to_le_bytes());
        out[slot + 8..slot + 12].copy_from_slice(&((start / 16) as u32).to_le_bytes());
        out[slot + 12..slot + 16].copy_from_slice(&blocks.to_le_bytes());
    }
    out
}

fn put16(page: &mut [u8], at: usize, v: u16, big: bool) {
    let b: [u8; 2] = if big { v.to_be_bytes() } else { v.to_le_bytes() };
    page[at..at + 2].copy_from_slice(&b);
}

fn put32(page: &mut [u8], at: usize, v: u32, big: bool) {
    let b: [u8; 4] = if big { v.to_be_bytes() } else { v.to_le_bytes() };
    page[at..at + 4].copy_from_slice(&b);
}

/// A hash database with pages of 512 bytes: the metadata page, one hash
/// page with a pair for each record, and the overflow pages of the values.
fn bdb_image(records: &[Vec<u8>], big: bool) -> Vec<u8> {
    let mut meta: Vec<u8> = vec![0u8; PAGE];
    put32(&mut meta, 12, 0x0006_1561, big);
    put32(&mut meta, 16, 9, big);
    put32(&mut meta, 20, PAGE as u32, big);
    meta[25] = 8;
    let mut hash: Vec<u8> = vec![0u8; PAGE];
    put32(&mut hash, 8, 1, big);
    put16(&mut hash, 20, 2 * records.len() as u16, big);
    hash[25] = 13;
    let mut overflow: Vec<Vec<u8>> = Vec::new();
    let mut free: usize = PAGE;
    for (i, record) in records.iter().enumerate() {
        free -= 5;
        hash[free] = 1;
        put32(&mut hash, free + 1, i as u32 + 1, big);
        put16(&mut hash, 26 + 4 * i, free as u16, big);
        free -= 12;
        hash[free] = 3;
        let first: u32 = if record.is_empty() { 0 } else { 2 + overflow.len() as u32 };
        put32(&mut hash, free + 4, first, big);
        put32(&mut hash, free + 8, record.len() as u32, big);
        put16(&mut hash, 26 + 4 * i + 2, free as u16, big);
        let chunks: Vec<&[u8]> = record.chunks(PAGE - 26).collect();
        for (k, chunk) in chunks.iter().enumerate() {
            let number: u32 = 2 + overflow.len() as u32;
            let mut page: Vec<u8> = vec![0u8; PAGE];
            put32(&mut page, 8, number, big);
            let next: u32 = if k + 1 < chunks.len() { number + 1 } else { 0 };
            put32(&mut page, 16, next, big);
            put16(&mut page, 22, chunk.len() as u16, big);
            page[25] = 7;
            page[26..26 + chunk.len()].copy_from_slice(chunk);
            overflow.push(page);
        }
    }
    put16(&mut hash, 22, free as u16, big);
    put32(&mut meta, 32, 1 + overflow.len() as u32, big);
    let mut out: Vec<u8> = meta;
    out.extend_from_slice(&hash);
    for page in overflow {
        out.extend_from_slice(&page);
    }
    out
}

/// An SQLite image with the table `Packages` and one row for each record.
fn sqlite_image(records: &[Vec<u8>]) -> Vec<u8> {
    let mut conn = rusqlite::Connection::open_in_memory().unwrap();
    conn.execute_batch("CREATE TABLE Packages (hnum INTEGER PRIMARY KEY AUTOINCREMENT, blob BLOB NOT NULL)")
        .unwrap();
    for record in records {
        conn.execute("INSERT INTO Packages (blob) VALUES (?1)", [record.clone()]).unwrap();
    }
    let image: Vec<u8> = conn.serialize(rusqlite::MAIN_DB).unwrap().to_vec();
    image
}

/// Asks SQLite for the records of the database whose image `image` is, as
/// the rows of the `blob` column of the table `Packages`.
fn ask_sqlite(image: &[u8]) -> Result<Vec<Vec<u8>>, String> {
    let select = || -> Result<Vec<Vec<u8>>, rusqlite::Error> {
        let mut conn = rusqlite::Connection::open_in_memory()?;
        conn.deserialize_read_exact(rusqlite::MAIN_DB, image, image.len(), true)?;
        let mut stmt = conn.prepare("SELECT blob FROM Packages")?;
        let rows = stmt.query_map([], |row| row.get(0))?;
        let mut blobs: Vec<Vec<u8>> = Vec::new();
        for row in rows {
            blobs.push(row?);
        }
        Ok(blobs)
    };
    select().map_err(|e| e.to_string())
}

/// Opens an SQLite image with what SQLite says of it.
fn sqlite_db(image: &[u8]) -> Result<SqliteDB, RpmdbError> {
    SqliteDB::open(image, ask_sqlite(image))
}

/// Reads the records of an image through the backend selected for it.
fn read_all(image: &[u8]) -> Result<Vec<Vec<u8>>, RpmdbError> {
    match open(image)? {
        Backend::Sqlite => sqlite_db(image)?.read(),
        Backend::Ndb(mut db) => db.read(),
        Backend::Bdb(mut db) => db.read(),
    }
}

/// Reads the packages of an image through the backend selected for it.
fn packages(image: &[u8]) -> Result<Vec<Package>, RpmdbError> {
    match open(image)? {
        Backend::Sqlite => read_packages(&mut sqlite_db(image)?),
        Backend::Ndb(mut db) => read_packages(&mut db),
        Backend::Bdb(mut db) => read_packages(&mut db),
    }
}

/// Stands in for the sample databases: an image of the format that the
/// file of that name has.
fn sample(path: &str) -> Vec<u8> {
    match path {
        "testdata/centos7-python35/Packages" => bdb_image(&records(), false),
        "testdata/fedora35/rpmdb.sqlite" => sqlite_image(&records()),
        "testdata/sle15-bci/Packages.db" => ndb_image(&records()),
        _ => panic!("no such sample"),
    }
}

fn names(packages: &[Package]) -> Vec<String> {
    packages.iter().map(|p| p.name.clone()).collect()
}

#[test]
fn test_open() {
    open(&sample("testdata/centos7-python35/Packages")).unwrap();
    open(&sample("testdata/fedora35/rpmdb.sqlite")).unwrap();
    open(&sample("testdata/sle15-bci/Packages.db")).unwrap();
}

#[test]
fn test_read_packages() {
    let mut db1 = Bdb::open(&sample("testdata/centos7-python35/Packages")).unwrap();
    let pkgs1 = read_packages(&mut db1).unwrap();
    assert!(!pkgs1.is_empty());

    let mut db2 = sqlite_db(&sample("testdata/fedora35/rpmdb.sqlite")).unwrap();
    let pkgs2 = read_packages(&mut db2).unwrap();
    assert!(!pkgs2.is_empty());

    let mut db3 = Ndb::open(&sample("testdata/sle15-bci/Packages.db")).unwrap();
    let pkgs3 = read_packages(&mut db3).unwrap();
    assert!(!pkgs3.is_empty());
}

#[test]
fn test_bdb() {
    let mut bdb = Bdb::open(&sample("testdata/centos7-python35/Packages")).unwrap();
    let values = bdb.read().unwrap();
    for value in values.clone() {
        let blob = Hdrblob::from_bytes(&value).unwrap();
        let mut entries = blob.import(&value).unwrap();
        sort_by_offset(&mut entries);
        let package = Package::try_from(entries).unwrap();
        println!("{} {:?}", package.name, package.provides);
    }
}

#[test]
fn test_sqlite3() {
    let mut sqlite = sqlite_db(&sample("testdata/fedora35/rpmdb.sqlite")).unwrap();
    let values = sqlite.read().unwrap();
    for value in values.clone() {
        let blob = Hdrblob::from_bytes(&value).unwrap();
        let mut entries = blob.import(&value).unwrap();
        sort_by_offset(&mut entries);
        let package = Package::try_from(entries).unwrap();
        println!("{} {:?}", package.name, package.provides);
    }
}

#[test]
fn test_ndb() {
    let mut ndb = Ndb::open(&sample("testdata/sle15-bci/Packages.db")).unwrap();
    let values = ndb.read().unwrap();
    for value in values.clone() {
        let blob = Hdrblob::from_bytes(&value).unwrap();
        let mut entries = blob.import(&value).unwrap();
        sort_by_offset(&mut entries);
        let package = Package::try_from(entries).unwrap();
        println!("{} {:?}", package.name, package.provides);
    }
}

#[test]
fn test_check_sqlite() {
    SqliteDB::check_sqlite(&sample("testdata/fedora35/rpmdb.sqlite")).unwrap();
}

#[test]
fn test_read() {
    let mut db = sqlite_db(&sample("testdata/fedora35/rpmdb.sqlite")).unwrap();
    let blobs = db.read().unwrap();
    assert!(!blobs.is_empty())
}

#[test]
fn open_picks_the_backend_of_each_format() {
    assert!(matches!(open(&bdb_image(&records(), false)), Ok(Backend::Bdb(_))));
    assert!(matches!(open(&bdb_image(&records(), true)), Ok(Backend::Bdb(_))));
    assert!(matches!(open(&ndb_image(&records())), Ok(Backend::Ndb(_))));
    assert!(matches!(open(&sqlite_image(&records())), Ok(Backend::Sqlite)));
}

#[test]
fn every_backend_reads_the_records_it_stores() {
    assert_eq!(read_all(&bdb_image(&records(), false)).unwrap(), records());
    assert_eq!(read_all(&bdb_image(&records(), true)).unwrap(), records());
    assert_eq!(read_all(&ndb_image(&records())).unwrap(), records());
    assert_eq!(read_all(&sqlite_image(&records())).unwrap(), records());
}

#[test]
fn every_backend_yields_the_same_packages() {
    let expected: Vec<String> = vec!["bash".to_string(), "zlib".to_string(), "glibc".to_string()];
    assert_eq!(names(&packages(&bdb_image(&records(), false)).unwrap()), expected);
    assert_eq!(names(&packages(&ndb_image(&records())).unwrap()), expected);
    assert_eq!(names(&packages(&sqlite_image(&records())).unwrap()), expected);
}

#[test]
fn a_read_leaves_the_backend_as_it_was() {
    let mut db = Ndb::open(&ndb_image(&records())).unwrap();
    let first = db.read().unwrap();
    let second = db.read().unwrap();
    assert_eq!(first, second);
    let mut db = Bdb::open(&bdb_image(&records(), false)).unwrap();
    let first = read_packages(&mut db).unwrap();
    let second = read_packages(&mut db).unwrap();
    assert_eq!(first, second);
    let mut db = SqliteDB::open(&sqlite_image(&[]), Ok(records())).unwrap();
    let first = db.read().unwrap();
    let second = db.read().unwrap();
    assert_eq!(first, records());
    assert_eq!(second, records());
}

#[test]
fn an_image_too_short_to_probe_is_an_error_of_its_own() {
    assert_eq!(open(&[]).err(), Some(RpmdbError::UnexpectedEof));
    assert_eq!(open(&[0u8; 15]).err(), Some(RpmdbError::UnexpectedEof));
    assert_eq!(open(&[0u8; 31]).err(), Some(RpmdbError::UnexpectedEof));
    assert_eq!(SqliteDB::check_sqlite(&[0u8; 15]).err(), Some(RpmdbError::UnexpectedEof));
    assert_eq!(Ndb::open(&[0u8; 31]).err(), Some(RpmdbError::UnexpectedEof));
}

#[test]
fn an_image_of_no_format_fails_at_the_last_backend() {
    assert_eq!(
        open(&[0u8; 32]).err(),
        Some(RpmdbError::MalformedContainer(ContainerFault::Truncated))
    );
    assert_eq!(
        open(&[0u8; 512]).err(),
        Some(RpmdbError::MalformedContainer(ContainerFault::BadMagic))
    );
    assert_eq!(
        packages(&[0u8; 512]).err(),
        Some(RpmdbError::MalformedContainer(ContainerFault::BadMagic))
    );
}

#[test]
fn only_a_format_mismatch_lets_the_next_backend_try() {
    assert_eq!(
        SqliteDB::open(&[0u8; 16], Ok(records())).err(),
        Some(RpmdbError::InvalidSqliteFile)
    );
    assert_eq!(
        SqliteDB::open(&[0u8; 15], Ok(records())).err(),
        Some(RpmdbError::UnexpectedEof)
    );
    assert_eq!(Ndb::open(&[0u8; 32]).err(), Some(RpmdbError::InvalidNdbFile));
    let mut image: Vec<u8> = ndb_image(&records());
    image[12..16].copy_from_slice(&4096u32.to_le_bytes());
    assert_eq!(
        open(&image).err(),
        Some(RpmdbError::MalformedContainer(ContainerFault::TooManySlots))
    );
    let mut image: Vec<u8> = ndb_image(&[]);
    image[12..16].copy_from_slice(&2u32.to_le_bytes());
    assert_eq!(
        open(&image).err(),
        Some(RpmdbError::MalformedContainer(ContainerFault::Truncated))
    );
}

#[test]
fn a_failure_of_sqlite_fails_the_read_with_its_text() {
    let image: Vec<u8> = sqlite_image(&records());
    let mut db = SqliteDB::open(&image, Err("no such table: Packages".to_string())).unwrap();
    assert_eq!(db.read().err(), Some(RpmdbError::Sqlite("no such table: Packages".to_string())));
    assert_eq!(
        read_packages(&mut db).err(),
        Some(RpmdbError::Sqlite("no such table: Packages".to_string()))
    );
}

#[test]
fn an_sqlite_image_that_sqlite_rejects_fails_the_read() {
    let mut image: Vec<u8> = b"SQLite format 3\0".to_vec();
    image.extend_from_slice(&[0u8; 100]);
    assert!(matches!(open(&image), Ok(Backend::Sqlite)));
    assert!(matches!(read_all(&image), Err(RpmdbError::Sqlite(_))));
    assert!(matches!(packages(&image), Err(RpmdbError::Sqlite(_))));
}

#[test]
fn an_sqlite_image_without_the_table_fails_the_read() {
    let mut conn = rusqlite::Connection::open_in_memory().unwrap();
    conn.execute_batch("CREATE TABLE Other (blob BLOB)").unwrap();
    let image: Vec<u8> = conn.serialize(rusqlite::MAIN_DB).unwrap().to_vec();
    assert!(matches!(packages(&image), Err(RpmdbError::Sqlite(_))));
}

#[test]
fn sqlite_rows_come_as_they_were_given() {
    let rows: Vec<Vec<u8>> = vec![zlib(), bash(), Vec::new(), zlib()];
    let mut db = SqliteDB::open(&sqlite_image(&[]), Ok(rows.clone())).unwrap();
    assert_eq!(db.read().unwrap(), rows);
    let rows: Vec<Vec<u8>> = vec![zlib(), bash()];
    assert_eq!(read_all(&sqlite_image(&rows)).unwrap(), rows);
    let mut db = SqliteDB::open(&sqlite_image(&[]), Ok(rows)).unwrap();
    let names: Vec<String> = names(&read_packages(&mut db).unwrap());
    assert_eq!(names, vec!["zlib".to_string(), "bash".to_string()]);
}

#[test]
fn adler32_of_known_texts() {
    assert_eq!(adler32(b"Wikipedia"), 0x11e6_0398);
    assert_eq!(adler32(b""), 1);
    assert_eq!(adler32(b"a"), 0x0062_0062);
    let long: Vec<u8> = vec![0xff; 100_000];
    assert_eq!(adler32(&long), adler(&long));
}

#[test]
fn ndb_passes_over_free_slots() {
    let db = Ndb::open(&ndb_image(&[zlib()])).unwrap();
    assert_eq!(db.records().unwrap(), vec![zlib()]);
    let db = Ndb::open(&ndb_image(&[])).unwrap();
    assert_eq!(db.records().unwrap(), Vec::<Vec<u8>>::new());
}

#[test]
fn ndb_fails_on_a_wrong_checksum() {
    let mut image: Vec<u8> = ndb_image(&records());
    let at: usize = 4096 + 16 + 20;
    image[at] ^= 1;
    let db = Ndb::open(&image).unwrap();
    assert_eq!(db.records().err(), Some(ContainerFault::BadChecksum { slot: 1 }));
    assert_eq!(
        packages(&image).err(),
        Some(RpmdbError::MalformedContainer(ContainerFault::BadChecksum { slot: 1 }))
    );
}

#[test]
fn ndb_fails_on_a_slot_out_of_place() {
    let good: Vec<u8> = ndb_image(&records());
    let slot: usize = 32 + 16 * 3;

    let mut image: Vec<u8> = good.clone();
    image[32] = b'X';
    assert_eq!(Ndb::open(&image).unwrap().records().err(), Some(ContainerFault::BadSlot { slot: 0 }));

    let mut image: Vec<u8> = good.clone();
    image[slot + 8..slot + 12].copy_from_slice(&0x0fff_ffffu32.to_le_bytes());
    assert_eq!(Ndb::open(&image).unwrap().records().err(), Some(ContainerFault::BadSlot { slot: 3 }));

    let mut image: Vec<u8> = good.clone();
    image[slot + 4] ^= 0x40;
    assert_eq!(Ndb::open(&image).unwrap().records().err(), Some(ContainerFault::BadSlot { slot: 3 }));

    let mut image: Vec<u8> = good.clone();
    image[slot + 12] ^= 0x40;
    assert_eq!(Ndb::open(&image).unwrap().records().err(), Some(ContainerFault::BadSlot { slot: 3 }));

    let mut image: Vec<u8> = good.clone();
    image[4096] = b'X';
    assert_eq!(Ndb::open(&image).unwrap().records().err(), Some(ContainerFault::BadSlot { slot: 1 }));

    let mut image: Vec<u8> = good.clone();
    let last: usize = image.len();
    image.truncate(last - 16);
    assert_eq!(Ndb::open(&image).unwrap().records().err(), Some(ContainerFault::BadSlot { slot: 5 }));
}

#[test]
fn bdb_follows_overflow_chains_over_many_pages() {
    assert!(glibc().len() > 3 * (PAGE - 26));
    let db = Bdb::open(&bdb_image(&[glibc()], false)).unwrap();
    assert_eq!(db.records().unwrap(), vec![glibc()]);
}

#[test]
fn bdb_reads_values_held_on_the_page() {
    let mut image: Vec<u8> = bdb_image(&[], false);
    let value: [u8; 4] = [9, 8, 7, 6];
    put16(&mut image[PAGE..], 20, 2, false);
    image[PAGE + 507] = 1;
    put16(&mut image[PAGE..], 26, 507, false);
    image[PAGE + 502] = 1;
    image[PAGE + 503..PAGE + 507].copy_from_slice(&value);
    put16(&mut image[PAGE..], 28, 502, false);
    let db = Bdb::open(&image).unwrap();
    assert_eq!(db.records().unwrap(), vec![value.to_vec()]);
}

#[test]
fn bdb_gives_an_empty_record_for_a_chain_that_ends_at_once() {
    let db = Bdb::open(&bdb_image(&[Vec::new()], false)).unwrap();
    assert_eq!(db.records().unwrap(), vec![Vec::<u8>::new()]);
}

#[test]
fn bdb_open_rejects_a_bad_metadata_page() {
    let good: Vec<u8> = bdb_image(&records(), false);
    assert_eq!(Bdb::open(&good[..71]).err(), Some(ContainerFault::Truncated));

    let mut image: Vec<u8> = good.clone();
    image[12] ^= 1;
    assert_eq!(Bdb::open(&image).err(), Some(ContainerFault::BadMagic));

    let mut image: Vec<u8> = good.clone();
    image[24] = 1;
    assert_eq!(Bdb::open(&image).err(), Some(ContainerFault::Encrypted));

    let mut image: Vec<u8> = good.clone();
    image[25] = 9;
    assert_eq!(Bdb::open(&image).err(), Some(ContainerFault::BadPageType));

    let mut image: Vec<u8> = good.clone();
    put32(&mut image, 20, 500, false);
    assert_eq!(Bdb::open(&image).err(), Some(ContainerFault::BadPageSize));
}

#[test]
fn bdb_fails_on_a_file_that_ends_early() {
    let mut image: Vec<u8> = bdb_image(&[zlib()], false);
    put32(&mut image, 32, 3, false);
    assert_eq!(Bdb::open(&image).unwrap().records().err(), Some(ContainerFault::Truncated));
}

#[test]
fn bdb_fails_on_a_page_out_of_place() {
    let good: Vec<u8> = bdb_image(&[zlib()], false);

    let mut image: Vec<u8> = good.clone();
    put16(&mut image[PAGE..], 20, 3, false);
    assert_eq!(
        Bdb::open(&image).unwrap().records().err(),
        Some(ContainerFault::BadPageLayout { page: 1 })
    );

    let mut image: Vec<u8> = good.clone();
    put16(&mut image[PAGE..], 20, 490, false);
    assert_eq!(
        Bdb::open(&image).unwrap().records().err(),
        Some(ContainerFault::BadPageLayout { page: 1 })
    );

    let mut image: Vec<u8> = good.clone();
    put16(&mut image[PAGE..], 28, 512, false);
    assert_eq!(
        Bdb::open(&image).unwrap().records().err(),
        Some(ContainerFault::BadPageLayout { page: 1 })
    );

    let mut image: Vec<u8> = good.clone();
    put16(&mut image[PAGE..], 28, 505, false);
    image[PAGE + 505] = 3;
    assert_eq!(
        Bdb::open(&image).unwrap().records().err(),
        Some(ContainerFault::BadPageLayout { page: 1 })
    );

    let mut image: Vec<u8> = good.clone();
    image[PAGE + 495] = 2;
    assert_eq!(
        Bdb::open(&image).unwrap().records().err(),
        Some(ContainerFault::UnsupportedItem { page: 1 })
    );
}

#[test]
fn bdb_fails_on_a_broken_chain() {
    let good: Vec<u8> = bdb_image(&[glibc()], false);

    let mut image: Vec<u8> = good.clone();
    put32(&mut image[3 * PAGE..], 16, 2, false);
    assert!(matches!(
        Bdb::open(&image).unwrap().records(),
        Err(ContainerFault::BadChain { .. })
    ));

    let mut image: Vec<u8> = good.clone();
    put32(&mut image[2 * PAGE..], 16, 1000, false);
    assert_eq!(
        Bdb::open(&image).unwrap().records().err(),
        Some(ContainerFault::BadChain { page: 1000 })
    );

    let mut image: Vec<u8> = good.clone();
    image[3 * PAGE + 25] = 13;
    put16(&mut image[3 * PAGE..], 20, 0, false);
    assert_eq!(
        Bdb::open(&image).unwrap().records().err(),
        Some(ContainerFault::BadChain { page: 3 })
    );

    let mut image: Vec<u8> = good.clone();
    put16(&mut image[2 * PAGE..], 22, 487, false);
    assert_eq!(
        Bdb::open(&image).unwrap().records().err(),
        Some(ContainerFault::BadChain { page: 2 })
    );
}

#[test]
fn the_first_record_that_does_not_decode_fails_the_whole() {
    let mut broken: Vec<u8> = zlib();
    broken[0] = 0;
    let image: Vec<u8> = ndb_image(&[bash(), broken, glibc()]);
    assert!(matches!(packages(&image), Err(RpmdbError::ParseBlob(_))));
}
