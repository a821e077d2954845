use vstd::prelude::*;
use crate::block::{parse_block, Block, DecodeError};
use crate::meta::{backend_key, chars_of, game_key, scan_meta, span_is, MetaError, WorldMeta};
use crate::position::BlockPos3;
use crate::store::{Backend, SqliteBackend, StoreError};

verus! {

/// Name of the descriptor file inside a world directory.
pub const META_FILE: &'static str = "world.mt";

/// Name of the database file of the `sqlite3` backend inside a world directory.
pub const SQLITE_FILE: &'static str = "map.sqlite";

/// Why a world could not be opened or a block could not be read.
#[derive(Debug, Clone, PartialEq, Eq)]
pub enum WorldError {
    /// The descriptor is malformed or lacks a required key.
    Meta(MetaError),
    /// The descriptor names a backend that is not registered; holds the name.
    UnknownBackend(String),
    /// The backend's store could not be opened.
    StoreOpenFailed,
    /// The backend failed to fetch the block at this position.
    Store(BlockPos3, StoreError),
    /// The payload stored at this position does not decode.
    BadBlock(BlockPos3, DecodeError),
}

/// The backends that a descriptor can name.
#[derive(Debug, Clone, Copy, PartialEq, Eq, Structural)]
pub enum BackendKind {
    /// Rows of an SQLite database, named `sqlite3`.
    Sqlite3,
}

pub open spec fn sqlite3_name() -> Seq<char> {
    seq!['s', 'q', 'l', 'i', 't', 'e', '3']
}

impl BackendKind {
    pub open spec fn spec_from_name(name: Seq<char>) -> Option<BackendKind> {
        if name == sqlite3_name() {
            Some(BackendKind::Sqlite3)
        } else {
            None
        }
    }

    /// The registered backend of this name.
    pub fn from_name(name: &str) -> (r: Option<BackendKind>)
        ensures
            r == Self::spec_from_name(name@),
    {
        let cs = chars_of(name);
        let sqlite3: [char; 7] = ['s', 'q', 'l', 'i', 't', 'e', '3'];
        assert(sqlite3@ == sqlite3_name());
        if span_is(&cs, 0, cs.len(), sqlite3.as_slice()) {
            assert(cs@.subrange(0, cs@.len() as int) =~= cs@);
            Some(BackendKind::Sqlite3)
        } else {
            assert(cs@.subrange(0, cs@.len() as int) =~= cs@);
            None
        }
    }
}

/// `dir`, a `/`, then `file`.
fn join_path(dir: &str, file: &str) -> (r: String)
    ensures
        r@ == dir@ + seq!['/'] + file@,
{
    let mut r = String::from_str(dir);
    proof {
        reveal_strlit("/");
    }
    r.append("/");
    r.append(file);
    r
}

/// A fetched payload, seen through its bytes.
pub open spec fn fetched_view(f: Result<Option<Vec<u8>>, StoreError>) -> Result<Option<Seq<u8>>, StoreError> {
    match f {
        Ok(Some(v)) => Ok(Some(v@)),
        Ok(None) => Ok(None),
        Err(e) => Err(e),
    }
}

/// What reading the block at `pos` gives when the backend handed back `fetched`.
pub open spec fn fetch_outcome(
    pos: BlockPos3,
    fetched: Result<Option<Seq<u8>>, StoreError>,
    r: Result<Option<Block>, WorldError>,
) -> bool {
    match fetched {
        Err(e) => r == Err::<Option<Block>, WorldError>(WorldError::Store(pos, e)),
        Ok(None) => r matches Ok(None),
        Ok(Some(bytes)) => match parse_block(bytes) {
            Ok(m) => r matches Ok(Some(b)) && b.wf() && b@ == m,
            Err(e) => r == Err::<Option<Block>, WorldError>(WorldError::BadBlock(pos, e)),
        },
    }
}

/// Turns what a backend handed back for `pos` into the block there: no
/// payload is no block, a payload is decoded, a failure is passed on.
pub fn decode_fetched(pos: BlockPos3, fetched: Result<Option<Vec<u8>>, StoreError>) -> (r: Result<Option<Block>, WorldError>)
    ensures
        fetch_outcome(pos, fetched_view(fetched), r),
{
    match fetched {
        Err(e) => Err(WorldError::Store(pos, e)),
        Ok(None) => Ok(None),
        Ok(Some(data)) => match Block::deserialize(data.as_slice()) {
            Ok(b) => Ok(Some(b)),
            Err(e) => Err(WorldError::BadBlock(pos, e)),
        },
    }
}

/// A world: one backend, and decoding of what it stores.
pub struct World<B> {
    backend: B,
}

impl<B> World<B> {
    /// The backend this world reads from.
    pub closed spec fn backend(&self) -> B {
        self.backend
    }
}

impl<B: Backend> World<B> {
    /// A world over the given backend.
    pub fn new(backend: B) -> (r: Self)
        ensures
            r.backend() == backend,
    {
        World { backend }
    }

    /// The block at `pos`: `None` where nothing is stored there.
    pub fn get_block(&mut self, pos: BlockPos3) -> (r: Result<Option<Block>, WorldError>)
        ensures
            exists|f: Result<Option<Seq<u8>>, StoreError>| fetch_outcome(pos, f, r),
    {
        let fetched = self.backend.get_block_data(pos);
        let ghost f = fetched_view(fetched);
        let r = decode_fetched(pos, fetched);
        assert(fetch_outcome(pos, f, r));
        r
    }
}

impl World<SqliteBackend> {
    /// Opens the world in directory `location` whose descriptor reads `descriptor`.
    pub fn open(descriptor: &str, location: &str) -> (r: Result<World<SqliteBackend>, WorldError>)
        ensures
            match scan_meta(descriptor@, 0, None, None, 1) {
                Err(line) => r matches Err(WorldError::Meta(MetaError::InvalidMetaLine(l))) && l == line as usize,
                Ok((None, _)) => r matches Err(WorldError::Meta(MetaError::MissingMetaField(k))) && k@ == backend_key(),
                Ok((Some(_), None)) => r matches Err(WorldError::Meta(MetaError::MissingMetaField(k))) && k@ == game_key(),
                Ok((Some(b), Some(_))) => if BackendKind::spec_from_name(b) is None {
                    r matches Err(WorldError::UnknownBackend(n)) && n@ == b
                } else {
                    r is Ok || r == Err::<World<SqliteBackend>, WorldError>(WorldError::StoreOpenFailed)
                },
            },
            r matches Ok(w) ==> w.backend().path() == location@ + seq!['/'] + SQLITE_FILE@,
    {
        let meta = match WorldMeta::parse(descriptor) {
            Ok(m) => m,
            Err(e) => return Err(WorldError::Meta(e)),
        };
        match BackendKind::from_name(meta.backend.as_str()) {
            None => Err(WorldError::UnknownBackend(meta.backend)),
            Some(BackendKind::Sqlite3) => {
                let path = join_path(location, SQLITE_FILE);
                match SqliteBackend::new(path.as_str()) {
                    Ok(backend) => Ok(World { backend }),
                    Err(_) => Err(WorldError::StoreOpenFailed),
                }
            },
        }
    }
}

} // verus!
