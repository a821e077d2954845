use kintsugi::{
    Backend, BackendKind, Block, BlockPos3, DecodeError, MetaError, NodePos3, SqliteBackend, StoreError, World,
    WorldError, WorldMeta,
};
use std::collections::HashMap;

struct MemoryBackend {
    rows: HashMap<i64, Vec<u8>>,
}

impl Backend for MemoryBackend {
    fn get_block_data(&mut self, pos: BlockPos3) -> Result<Option<Vec<u8>>, StoreError> {
        Ok(self.rows.get(&pos.to_index()).cloned())
    }

    fn set_block_data(&mut self, pos: BlockPos3, data: &[u8]) -> Result<(), StoreError> {
        self.rows.insert(pos.to_index(), data.to_vec());
        Ok(())
    }
}

struct FailingBackend;

impl Backend for FailingBackend {
    fn get_block_data(&mut self, _pos: BlockPos3) -> Result<Option<Vec<u8>>, StoreError> {
        Err(StoreError::AccessFailed)
    }

    fn set_block_data(&mut self, _pos: BlockPos3, _data: &[u8]) -> Result<(), StoreError> {
        Err(StoreError::AccessFailed)
    }
}

fn block_payload(id: u16) -> Vec<u8> {
    let mut raw = Vec::new();
    for _ in 0..4096 {
        raw.push((id >> 8) as u8);
        raw.push(id as u8);
    }
    raw.extend(std::iter::repeat(3u8).take(4096));
    raw.extend(std::iter::repeat(4u8).take(4096));
    let mut out = vec![28, 0];
    out.extend_from_slice(&miniz_oxide::deflate::compress_to_vec_zlib(&raw, 6));
    out.extend_from_slice(&[0, 1, 0, 5, 0, 5]);
    out.extend_from_slice(b"stone");
    out
}

#[test]
fn meta_parses_backend_and_game() {
    let meta = WorldMeta::parse("backend = sqlite3\ngameid = minetest\n").unwrap();
    assert_eq!(meta.backend, "sqlite3");
    assert_eq!(meta.game, "minetest");
}

#[test]
fn meta_skips_comments_blanks_and_unknown_keys() {
    let text = "# a world\r\n\r\n  creative_mode = true\r\nbackend=sqlite3  \r\n\tgameid =  my game\r\nbackend = leveldb";
    let meta = WorldMeta::parse(text).unwrap();
    assert_eq!(meta.backend, "leveldb");
    assert_eq!(meta.game, "my game");
}

#[test]
fn meta_missing_game_is_reported() {
    assert_eq!(
        WorldMeta::parse("backend = sqlite3\n").unwrap_err(),
        MetaError::MissingMetaField("gameid".to_string())
    );
    assert_eq!(
        WorldMeta::parse("gameid = minetest\n").unwrap_err(),
        MetaError::MissingMetaField("backend".to_string())
    );
    assert_eq!(WorldMeta::parse("").unwrap_err(), MetaError::MissingMetaField("backend".to_string()));
}

#[test]
fn meta_line_without_separator_is_invalid() {
    assert_eq!(
        WorldMeta::parse("backend = sqlite3\nnonsense\ngameid = x\n").unwrap_err(),
        MetaError::InvalidMetaLine(2)
    );
}

#[test]
fn backend_names_are_looked_up() {
    assert_eq!(BackendKind::from_name("sqlite3"), Some(BackendKind::Sqlite3));
    assert_eq!(BackendKind::from_name("sqlite"), None);
    assert_eq!(BackendKind::from_name(""), None);
}

#[test]
fn open_rejects_unknown_backend() {
    let r = World::open("backend = nonexistent\ngameid = minetest\n", "/nonexistent");
    assert_eq!(r.err().unwrap(), WorldError::UnknownBackend("nonexistent".to_string()));
}

#[test]
fn open_rejects_descriptor_without_game() {
    let r = World::open("backend = sqlite3\n", "/nonexistent");
    assert_eq!(r.err().unwrap(), WorldError::Meta(MetaError::MissingMetaField("gameid".to_string())));
}

#[test]
fn open_reports_missing_store() {
    let r = World::open("backend = sqlite3\ngameid = minetest\n", "/nonexistent_world_dir");
    assert_eq!(r.err().unwrap(), WorldError::StoreOpenFailed);
    assert_eq!(SqliteBackend::new("/nonexistent_world_dir/map.sqlite").err().unwrap(), StoreError::OpenFailed);
}

#[test]
fn open_sqlite_world_and_read_blocks() {
    let dir = "/tmp";
    let conn = rusqlite::Connection::open("/tmp/map.sqlite").unwrap();
    conn.execute("CREATE TABLE IF NOT EXISTS blocks (pos INTEGER PRIMARY KEY, data BLOB)", ()).unwrap();
    conn.execute("DELETE FROM blocks", ()).unwrap();
    drop(conn);
    let mut world = World::open("backend = sqlite3\ngameid = minetest\n", dir).unwrap();
    assert!(world.get_block(BlockPos3::new(0, 0, 0)).unwrap().is_none());

    let mut backend = SqliteBackend::new("/tmp/map.sqlite").unwrap();
    backend.set_block_data(BlockPos3::new(1, -2, 3), &block_payload(9)).unwrap();
    backend.set_block_data(BlockPos3::new(1, -2, 3), &block_payload(11)).unwrap();
    backend.set_block_data(BlockPos3::new(0, 0, 1), &[5, 0, 0]).unwrap();
    assert_eq!(backend.get_block_data(BlockPos3::new(1, -2, 3)).unwrap(), Some(block_payload(11)));

    let block = world.get_block(BlockPos3::new(1, -2, 3)).unwrap().unwrap();
    assert_eq!(block.get_node(NodePos3::new(4, 5, 6)).id, 11);
    assert_eq!(
        world.get_block(BlockPos3::new(0, 0, 1)).err().unwrap(),
        WorldError::BadBlock(BlockPos3::new(0, 0, 1), DecodeError::UnsupportedBlockVersion(5))
    );
}

#[test]
fn absent_block_is_none() {
    let mut world = World::new(MemoryBackend { rows: HashMap::new() });
    assert!(world.get_block(BlockPos3::new(7, 7, 7)).unwrap().is_none());
}

#[test]
fn stored_block_is_decoded() {
    let mut rows = HashMap::new();
    rows.insert(BlockPos3::new(2, 3, 4).to_index(), block_payload(42));
    let mut world = World::new(MemoryBackend { rows });
    let block: Block = world.get_block(BlockPos3::new(2, 3, 4)).unwrap().unwrap();
    let n = block.get_node(NodePos3::new(0, 15, 0));
    assert_eq!((n.id, n.param1, n.param2), (42, 3, 4));
    assert!(world.get_block(BlockPos3::new(4, 3, 2)).unwrap().is_none());
}

#[test]
fn version_five_block_is_unsupported() {
    let mut rows = HashMap::new();
    let mut bytes = block_payload(1);
    bytes[0] = 5;
    rows.insert(BlockPos3::new(0, 0, 0).to_index(), bytes);
    let mut world = World::new(MemoryBackend { rows });
    assert_eq!(
        world.get_block(BlockPos3::new(0, 0, 0)).err().unwrap(),
        WorldError::BadBlock(BlockPos3::new(0, 0, 0), DecodeError::UnsupportedBlockVersion(5))
    );
}

#[test]
fn backend_failure_is_passed_on() {
    let mut world = World::new(FailingBackend);
    assert_eq!(
        world.get_block(BlockPos3::new(1, 1, 1)).err().unwrap(),
        WorldError::Store(BlockPos3::new(1, 1, 1), StoreError::AccessFailed)
    );
}

#[test]
fn meta_value_keeps_later_separators() {
    let meta = WorldMeta::parse("gameid = a=b\nbackend   =   sqlite3").unwrap();
    assert_eq!(meta.game, "a=b");
    assert_eq!(meta.backend, "sqlite3");
}

#[test]
fn open_reports_invalid_line() {
    let r = World::open("# header\nbackend sqlite3\n", "/nonexistent");
    assert_eq!(r.err().unwrap(), WorldError::Meta(MetaError::InvalidMetaLine(2)));
}

#[test]
fn meta_skips_lines_of_any_white_space() {
    let text = "\u{c}\n\u{b}\n\u{a0}\u{3000}\nbackend =\u{a0}sqlite3\u{2003}\n\u{85}gameid = minetest\n";
    let meta = WorldMeta::parse(text).unwrap();
    assert_eq!(meta.backend, "sqlite3");
    assert_eq!(meta.game, "minetest");
    assert_eq!(WorldMeta::parse("\u{c}\n").unwrap_err(), MetaError::MissingMetaField("backend".to_string()));
}

#[test]
fn sqlite_rejects_unrepresentable_key() {
    let conn = rusqlite::Connection::open("/tmp/map_key_range.sqlite").unwrap();
    conn.execute("CREATE TABLE IF NOT EXISTS blocks (pos INTEGER PRIMARY KEY, data BLOB)", ()).unwrap();
    drop(conn);
    let mut backend = SqliteBackend::new("/tmp/map_key_range.sqlite").unwrap();
    let far = BlockPos3::new(0, 0, i64::MAX);
    assert_eq!(backend.get_block_data(far), Err(StoreError::KeyOutOfRange));
    assert_eq!(backend.set_block_data(far, &[1, 2]), Err(StoreError::KeyOutOfRange));
    assert_eq!(backend.get_block_data(BlockPos3::new(5, 5, 5)), Ok(None));
}
