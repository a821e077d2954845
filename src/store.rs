use vstd::prelude::*;
use crate::position::BlockPos3;
use rusqlite::OptionalExtension;

verus! {

#[verifier::external_type_specification]
#[verifier::external_body]
pub struct ExConnection(rusqlite::Connection);

#[verifier::external_type_specification]
#[verifier::external_body]
pub struct ExSqlError(rusqlite::Error);

/// Why a backend could not serve a request.
#[derive(Debug, Clone, Copy, PartialEq, Eq)]
pub enum StoreError {
    /// The store could not be opened.
    OpenFailed,
    /// The store failed to read or write a record.
    AccessFailed,
    /// The position's key does not fit in 64 bits.
    KeyOutOfRange,
}

/// Persistence of raw block payloads by block position.
pub trait Backend {
    /// The stored payload at `pos`, or `None` where nothing is stored there.
    fn get_block_data(&mut self, pos: BlockPos3) -> Result<Option<Vec<u8>>, StoreError>;

    /// Stores `data` at `pos`, replacing what was there.
    fn set_block_data(&mut self, pos: BlockPos3, data: &[u8]) -> Result<(), StoreError>;
}

/// Lookup of one payload by key.
pub const SELECT_BLOCK: &'static str = "SELECT data FROM blocks WHERE pos = ?";

/// Insert-or-replace of one payload by key.
pub const UPSERT_BLOCK: &'static str = "INSERT OR REPLACE INTO blocks (pos, data) VALUES (?, ?)";

/// Relies on `rusqlite::Connection::open_with_flags`: opens an existing
/// database read-write with a private cache; fails where it is missing or
/// cannot be opened.
#[verifier::external_body]
fn open_connection(path: &str) -> (r: Result<rusqlite::Connection, rusqlite::Error>) {
    let flags = rusqlite::OpenFlags::SQLITE_OPEN_READ_WRITE
        | rusqlite::OpenFlags::SQLITE_OPEN_PRIVATE_CACHE;
    rusqlite::Connection::open_with_flags(path, flags)
}

/// Relies on `rusqlite::Connection::prepare_cached` and `query_row`, made
/// optional: the blob of the one row for `key`, `None` where there is none.
#[verifier::external_body]
fn query_blob(conn: &rusqlite::Connection, sql: &str, key: i64) -> (r: Result<Option<Vec<u8>>, rusqlite::Error>) {
    conn.prepare_cached(sql)?.query_row([key], |row| row.get(0)).optional()
}

/// Relies on `rusqlite::Connection::prepare_cached` and `execute` with a key and a blob.
#[verifier::external_body]
fn execute_blob(conn: &rusqlite::Connection, sql: &str, key: i64, data: &[u8]) -> (r: Result<usize, rusqlite::Error>) {
    conn.prepare_cached(sql)?.execute((key, data))
}

/// A backend that keeps each block as one row of table `blocks`, keyed by
/// the block's packed position.
pub struct SqliteBackend {
    conn: rusqlite::Connection,
    path: Ghost<Seq<char>>,
}

impl SqliteBackend {
    /// The path of the database this backend was opened on.
    pub closed spec fn path(&self) -> Seq<char> {
        self.path@
    }

    /// Opens the database at `path`, which must exist.
    pub fn new(path: &str) -> (r: Result<Self, StoreError>)
        ensures
            r is Err ==> r == Err::<Self, StoreError>(StoreError::OpenFailed),
            r matches Ok(b) ==> b.path() == path@,
    {
        match open_connection(path) {
            Ok(conn) => Ok(SqliteBackend { conn, path: Ghost(path@) }),
            Err(_) => Err(StoreError::OpenFailed),
        }
    }
}

impl Backend for SqliteBackend {
    /// Fails with `KeyOutOfRange` exactly where the key of `pos` does not
    /// fit in 64 bits; any other failure is the store's.
    fn get_block_data(&mut self, pos: BlockPos3) -> (r: Result<Option<Vec<u8>>, StoreError>)
        ensures
            !pos.index_fits() <==> r == Err::<Option<Vec<u8>>, StoreError>(StoreError::KeyOutOfRange),
            r is Err ==> r->Err_0 == StoreError::KeyOutOfRange || r->Err_0 == StoreError::AccessFailed,
            final(self).path() == old(self).path(),
    {
        let key = match pos.checked_index() {
            Some(k) => k,
            None => return Err(StoreError::KeyOutOfRange),
        };
        match query_blob(&self.conn, SELECT_BLOCK, key) {
            Ok(v) => Ok(v),
            Err(_) => Err(StoreError::AccessFailed),
        }
    }

    /// Fails with `KeyOutOfRange` exactly where the key of `pos` does not
    /// fit in 64 bits; any other failure is the store's.
    fn set_block_data(&mut self, pos: BlockPos3, data: &[u8]) -> (r: Result<(), StoreError>)
        ensures
            !pos.index_fits() <==> r == Err::<(), StoreError>(StoreError::KeyOutOfRange),
            r is Err ==> r->Err_0 == StoreError::KeyOutOfRange || r->Err_0 == StoreError::AccessFailed,
            final(self).path() == old(self).path(),
    {
        let key = match pos.checked_index() {
            Some(k) => k,
            None => return Err(StoreError::KeyOutOfRange),
        };
        match execute_blob(&self.conn, UPSERT_BLOCK, key, data) {
            Ok(_) => Ok(()),
            Err(_) => Err(StoreError::AccessFailed),
        }
    }
}

} // verus!
