use kintsugi::{Block, DecodeError, NodePos3};

fn node_data(id: impl Fn(usize) -> u16, p1: impl Fn(usize) -> u8, p2: impl Fn(usize) -> u8) -> Vec<u8> {
    let mut raw = Vec::new();
    for i in 0..4096 {
        raw.push((id(i) >> 8) as u8);
        raw.push(id(i) as u8);
    }
    for i in 0..4096 {
        raw.push(p1(i));
    }
    for i in 0..4096 {
        raw.push(p2(i));
    }
    raw
}

fn payload(version: u8, flags: u8, raw: &[u8], names: &[(u16, &[u8])], trailer: &[u8]) -> Vec<u8> {
    let mut out = vec![version, flags];
    out.extend_from_slice(&miniz_oxide::deflate::compress_to_vec_zlib(raw, 6));
    out.push((names.len() >> 8) as u8);
    out.push(names.len() as u8);
    for (id, name) in names {
        out.push((id >> 8) as u8);
        out.push(*id as u8);
        out.push((name.len() >> 8) as u8);
        out.push(name.len() as u8);
        out.extend_from_slice(name);
    }
    out.extend_from_slice(trailer);
    out
}

fn sample() -> Vec<u8> {
    let raw = node_data(|i| (i % 3) as u16 + if i == 4095 { 0x0300 } else { 0 }, |i| (i % 16) as u8, |i| (i / 256) as u8);
    payload(28, 0x0a, &raw, &[(0, b"air"), (1, b"default:stone"), (2, b"default:dirt")], &[9, 8, 7, 6])
}

#[test]
fn decodes_nodes_and_sections() {
    let block = Block::deserialize(&sample()).unwrap();
    assert_eq!(block.flags(), 0x0a);
    let n = block.get_node(NodePos3::new(1, 0, 0));
    assert_eq!((n.id, n.param1, n.param2), (1, 1, 0));
    let n = block.get_node(NodePos3::new(2, 3, 4));
    let i = 4 * 256 + 3 * 16 + 2;
    assert_eq!((n.id, n.param1, n.param2), ((i % 3) as u16, (i % 16) as u8, (i / 256) as u8));
    let n = block.get_node(NodePos3::new(15, 15, 15));
    assert_eq!((n.id, n.param1, n.param2), (0x0300, 15, 15));
    assert_eq!(block.names().len(), 3);
    assert_eq!(block.names()[1].id, 1);
    assert_eq!(block.names()[1].name, b"default:stone".to_vec());
    assert_eq!(block.trailer(), &vec![9u8, 8, 7, 6]);
}

#[test]
fn decode_encode_decode_keeps_block() {
    let first = Block::deserialize(&sample()).unwrap();
    let bytes = first.serialize();
    assert_eq!(bytes[0], 28);
    assert_eq!(bytes[1], 0x0a);
    assert!(bytes.ends_with(&[9, 8, 7, 6]));
    let second = Block::deserialize(&bytes).unwrap();
    for z in 0..16 {
        for y in 0..16 {
            for x in 0..16 {
                let a = first.get_node(NodePos3::new(x, y, z));
                let b = second.get_node(NodePos3::new(x, y, z));
                assert_eq!(a, b);
            }
        }
    }
    assert_eq!(second.flags(), first.flags());
    assert_eq!(second.names().len(), first.names().len());
    for (a, b) in first.names().iter().zip(second.names().iter()) {
        assert_eq!(a.id, b.id);
        assert_eq!(a.name, b.name);
    }
    assert_eq!(second.trailer(), first.trailer());
}

#[test]
fn other_version_is_unsupported() {
    let mut bytes = sample();
    bytes[0] = 5;
    assert_eq!(Block::deserialize(&bytes).unwrap_err(), DecodeError::UnsupportedBlockVersion(5));
    assert_eq!(Block::deserialize(&[27]).unwrap_err(), DecodeError::UnsupportedBlockVersion(27));
}

#[test]
fn empty_or_cut_payload_is_corrupt() {
    assert_eq!(Block::deserialize(&[]).unwrap_err(), DecodeError::CorruptBlockData);
    assert_eq!(Block::deserialize(&[28]).unwrap_err(), DecodeError::CorruptBlockData);
    let bytes = sample();
    assert_eq!(Block::deserialize(&bytes[..20]).unwrap_err(), DecodeError::CorruptBlockData);
}

#[test]
fn bad_stream_is_corrupt() {
    let bytes = vec![28, 0, 1, 2, 3, 4, 5, 6, 0, 0];
    assert_eq!(Block::deserialize(&bytes).unwrap_err(), DecodeError::CorruptBlockData);
}

#[test]
fn wrong_node_data_size_is_corrupt() {
    let bytes = payload(28, 0, &[0u8; 100], &[], &[]);
    assert_eq!(Block::deserialize(&bytes).unwrap_err(), DecodeError::CorruptBlockData);
    let bytes = payload(28, 0, &[0u8; 16385], &[], &[]);
    assert_eq!(Block::deserialize(&bytes).unwrap_err(), DecodeError::CorruptBlockData);
}

#[test]
fn name_count_past_end_is_corrupt() {
    let raw = node_data(|_| 0, |_| 0, |_| 0);
    let mut bytes = payload(28, 0, &raw, &[(0, b"air")], &[]);
    let n = bytes.len();
    let count_at = n - 2 - 2 - 3 - 2;
    bytes[count_at + 1] = 2;
    assert_eq!(Block::deserialize(&bytes).unwrap_err(), DecodeError::CorruptBlockData);
    bytes.truncate(n - 1);
    bytes[count_at + 1] = 1;
    assert_eq!(Block::deserialize(&bytes).unwrap_err(), DecodeError::CorruptBlockData);
}

#[test]
fn empty_name_table_and_trailer_decode() {
    let raw = node_data(|_| 7, |_| 1, |_| 2);
    let block = Block::deserialize(&payload(28, 0, &raw, &[], &[])).unwrap();
    assert_eq!(block.names().len(), 0);
    assert!(block.trailer().is_empty());
    let n = block.get_node(NodePos3::new(0, 0, 0));
    assert_eq!((n.id, n.param1, n.param2), (7, 1, 2));
}

#[test]
fn air_block_encodes_and_decodes() {
    let air = Block::air();
    let n = air.get_node(NodePos3::new(9, 9, 9));
    assert_eq!((n.id, n.param1, n.param2), (0, 0, 0));
    let bytes = air.serialize();
    assert_eq!(&bytes[..2], &[28, 0]);
    assert!(bytes.len() < 16384);
    assert!(bytes.ends_with(&[0, 1, 0, 0, 0, 3, b'a', b'i', b'r']));
    let back = Block::deserialize(&bytes).unwrap();
    assert_eq!(back.names().len(), 1);
    assert_eq!(back.names()[0].name, b"air".to_vec());
    assert_eq!(back.get_node(NodePos3::new(15, 0, 15)), air.get_node(NodePos3::new(15, 0, 15)));
}
