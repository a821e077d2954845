use vstd::prelude::*;
use crate::codec::{be16, be16_at, Serialize};
use crate::position::{NodePos3, NODE_COUNT};
use miniz_oxide::inflate::stream::{inflate, InflateState};
use miniz_oxide::{DataFormat, MZFlush, MZStatus};

verus! {

/// The one block format revision this codec reads and writes.
pub const BLOCK_VERSION: u8 = 28;

/// Length of the inflated node data: ids (two bytes each), then param1, then param2.
pub const NODE_DATA_LEN: usize = 16384;

/// Why a block payload could not be decoded.
#[derive(Debug, Clone, Copy, PartialEq, Eq)]
pub enum DecodeError {
    /// The leading version byte is not one this codec reads.
    UnsupportedBlockVersion(u8),
    /// The payload is truncated, its node data does not inflate to the
    /// expected size, or a count overruns the payload.
    CorruptBlockData,
}

/// What zlib inflation of the stream at the start of `s` gives, into an
/// output buffer of `cap` bytes: the output and the number of input bytes the
/// stream took, or `None` where the stream is malformed, cut short or larger than `cap`.
pub uninterp spec fn zlib_inflated(s: Seq<u8>, cap: nat) -> Option<(Seq<u8>, nat)>;

/// Relies on `miniz_oxide::inflate::stream::inflate` with `MZFlush::Finish` on a
/// fresh zlib state (one pass over a non-wrapping output buffer of `cap`
/// bytes): on `StreamEnd` it reports the bytes written and the input bytes
/// that the stream took, read-ahead given back.
#[verifier::external_body]
fn inflate_prefix(data: &[u8], cap: usize) -> (r: Option<(Vec<u8>, usize)>)
    ensures
        match r {
            Some((out, used)) => {
                &&& zlib_inflated(data@, cap as nat) == Some((out@, used as nat))
                &&& used <= data@.len()
            },
            None => zlib_inflated(data@, cap as nat) is None,
        },
{
    let mut state = InflateState::new_boxed(DataFormat::Zlib);
    let mut out = vec![0u8; cap];
    let res = inflate(&mut state, data, &mut out, MZFlush::Finish);
    match res.status {
        Ok(MZStatus::StreamEnd) => {
            out.truncate(res.bytes_written);
            Some((out, res.bytes_consumed))
        },
        _ => None,
    }
}

/// `z` is a complete zlib stream of `raw`: inflating it, whatever bytes
/// follow it, into a buffer large enough gives `raw` and stops at its end.
pub open spec fn deflated_from(z: Seq<u8>, raw: Seq<u8>) -> bool {
    forall|rest: Seq<u8>, cap: nat|
        raw.len() <= cap ==> #[trigger] zlib_inflated(z + rest, cap) == Some((raw, z.len()))
}

/// Relies on `miniz_oxide::deflate::compress_to_vec_zlib`: the output is a
/// complete zlib stream (header, deflate blocks, Adler-32 trailer) of `data`.
#[verifier::external_body]
fn deflate(data: &[u8]) -> (r: Vec<u8>)
    ensures
        deflated_from(r@, data@),
{
    miniz_oxide::deflate::compress_to_vec_zlib(data, 6)
}

/// One voxel: content id and its two parameter bytes.
#[derive(Debug, Clone, Copy, PartialEq, Eq, Structural)]
pub struct Node {
    pub id: u16,
    pub param1: u8,
    pub param2: u8,
}

/// One entry of a block's content-id to node-name table.
#[derive(Debug)]
pub struct NameEntry {
    pub id: u16,
    pub name: Vec<u8>,
}

/// A decoded block: 4096 nodes as three arrays, with the flags byte, the
/// name table and the trailing sections kept for re-encoding.
#[derive(Debug)]
pub struct Block {
    flags: u8,
    ids: Vec<u16>,
    param1: Vec<u8>,
    param2: Vec<u8>,
    names: Vec<NameEntry>,
    trailer: Vec<u8>,
}

/// The mathematical content of a block.
pub struct BlockView {
    pub flags: u8,
    pub ids: Seq<u16>,
    pub param1: Seq<u8>,
    pub param2: Seq<u8>,
    pub names: Seq<(u16, Seq<u8>)>,
    pub trailer: Seq<u8>,
}

pub open spec fn entry_view(e: NameEntry) -> (u16, Seq<u8>) {
    (e.id, e.name@)
}

/// Array lengths are 4096 and the name table fits its 16-bit counts.
pub open spec fn view_wf(m: BlockView) -> bool {
    &&& m.ids.len() == NODE_COUNT
    &&& m.param1.len() == NODE_COUNT
    &&& m.param2.len() == NODE_COUNT
    &&& m.names.len() < 65536
    &&& forall|i: int| 0 <= i < m.names.len() ==> #[trigger] m.names[i].1.len() < 65536
}

/// Big-endian bytes of each id in turn.
pub open spec fn ids_bytes(ids: Seq<u16>) -> Seq<u8> {
    Seq::new(2 * ids.len(), |k: int| if k % 2 == 0 { (ids[k / 2] / 256) as u8 } else { (ids[k / 2] % 256) as u8 })
}

/// The inflated node data of a block.
pub open spec fn node_data(m: BlockView) -> Seq<u8> {
    ids_bytes(m.ids) + m.param1 + m.param2
}

pub open spec fn entry_bytes(e: (u16, Seq<u8>)) -> Seq<u8> {
    be16(e.0) + be16(e.1.len() as u16) + e.1
}

/// The name table entries, each as id, name length and name bytes.
pub open spec fn names_bytes(es: Seq<(u16, Seq<u8>)>) -> Seq<u8>
    decreases es.len(),
{
    if es.len() == 0 {
        Seq::empty()
    } else {
        names_bytes(es.drop_last()) + entry_bytes(es.last())
    }
}

/// Reads `count` name entries from `s` at `pos`: the entries and the offset after them.
pub open spec fn parse_names(s: Seq<u8>, pos: int, count: nat) -> Option<(Seq<(u16, Seq<u8>)>, int)>
    decreases count,
{
    if count == 0 {
        Some((Seq::empty(), pos))
    } else {
        match parse_names(s, pos, (count - 1) as nat) {
            None => None,
            Some((es, p)) => {
                if p + 4 <= s.len() && p + 4 + be16_at(s, p + 2) <= s.len() {
                    let n = be16_at(s, p + 2) as int;
                    Some((es.push((be16_at(s, p), s.subrange(p + 4, p + 4 + n))), p + 4 + n))
                } else {
                    None
                }
            },
        }
    }
}

/// Splits inflated node data into its three arrays.
pub open spec fn split_node_data(raw: Seq<u8>) -> (Seq<u16>, Seq<u8>, Seq<u8>) {
    (Seq::new(4096, |i: int| be16_at(raw, 2 * i)), raw.subrange(8192, 12288), raw.subrange(12288, 16384))
}

/// The block that a payload holds: version byte, flags byte, zlib stream of
/// the node data, 16-bit count of name entries, the entries, and trailing
/// sections kept as they are.
pub open spec fn parse_block(b: Seq<u8>) -> Result<BlockView, DecodeError> {
    if b.len() == 0 {
        Err(DecodeError::CorruptBlockData)
    } else if b[0] != BLOCK_VERSION {
        Err(DecodeError::UnsupportedBlockVersion(b[0]))
    } else if b.len() < 2 {
        Err(DecodeError::CorruptBlockData)
    } else {
        match zlib_inflated(b.subrange(2, b.len() as int), NODE_DATA_LEN as nat) {
            None => Err(DecodeError::CorruptBlockData),
            Some((raw, used)) => {
                let p = 2 + used as int;
                if raw.len() != NODE_DATA_LEN || p + 2 > b.len() {
                    Err(DecodeError::CorruptBlockData)
                } else {
                    match parse_names(b, p + 2, be16_at(b, p) as nat) {
                        None => Err(DecodeError::CorruptBlockData),
                        Some((names, q)) => {
                            let (ids, param1, param2) = split_node_data(raw);
                            Ok(BlockView { flags: b[1], ids, param1, param2, names, trailer: b.subrange(q, b.len() as int) })
                        },
                    }
                }
            },
        }
    }
}

/// The payload of `m` with `z` as its compressed node data.
pub open spec fn encoded(m: BlockView, z: Seq<u8>) -> Seq<u8> {
    seq![BLOCK_VERSION, m.flags] + z + be16(m.names.len() as u16) + names_bytes(m.names) + m.trailer
}

/// The result of decoding, seen through the block's view.
pub open spec fn decode_view(r: Result<Block, DecodeError>) -> Result<BlockView, DecodeError> {
    match r {
        Ok(b) => Ok(b@),
        Err(e) => Err(e),
    }
}

impl View for Block {
    type V = BlockView;

    closed spec fn view(&self) -> BlockView {
        BlockView {
            flags: self.flags,
            ids: self.ids@,
            param1: self.param1@,
            param2: self.param2@,
            names: self.names@.map_values(|e: NameEntry| entry_view(e)),
            trailer: self.trailer@,
        }
    }
}

proof fn lemma_be16_at(s: Seq<u8>, p: int, v: u16)
    requires
        0 <= p,
        p + 2 <= s.len(),
        be16(v) == s.subrange(p, p + 2),
    ensures
        be16_at(s, p) == v,
{
    assert(s.subrange(p, p + 2)[0] == s[p]);
    assert(s.subrange(p, p + 2)[1] == s[p + 1]);
}

fn copy_range(data: &[u8], from: usize, to: usize) -> (r: Vec<u8>)
    requires
        from <= to <= data@.len(),
    ensures
        r@ == data@.subrange(from as int, to as int),
{
    let mut r: Vec<u8> = Vec::new();
    let mut i: usize = from;
    while i < to
        invariant
            from <= i <= to <= data@.len(),
            r@ == data@.subrange(from as int, i as int),
        decreases to - i,
    {
        r.push(data[i]);
        i = i + 1;
        assert(r@ =~= data@.subrange(from as int, i as int));
    }
    r
}

fn push_all(out: &mut Vec<u8>, src: &[u8])
    ensures
        final(out)@ == old(out)@ + src@,
{
    let mut i: usize = 0;
    while i < src.len()
        invariant
            i <= src@.len(),
            out@ == old(out)@ + src@.subrange(0, i as int),
        decreases src@.len() - i,
    {
        out.push(src[i]);
        i = i + 1;
        assert(out@ =~= old(out)@ + src@.subrange(0, i as int));
    }
    assert(src@.subrange(0, src@.len() as int) =~= src@);
}

proof fn lemma_ids_round_trip(ids: Seq<u16>, raw: Seq<u8>)
    requires
        ids.len() == NODE_COUNT,
        raw.len() >= 8192,
        raw.subrange(0, 8192) == ids_bytes(ids),
    ensures
        Seq::new(4096, |i: int| be16_at(raw, 2 * i)) == ids,
{
    assert forall|i: int| 0 <= i < 4096 implies be16_at(raw, 2 * i) == ids[i] by {
        assert(raw.subrange(0, 8192)[2 * i] == raw[2 * i]);
        assert(raw.subrange(0, 8192)[2 * i + 1] == raw[2 * i + 1]);
        assert((2 * i) / 2 == i);
        assert((2 * i + 1) / 2 == i);
    }
    assert(Seq::new(4096, |i: int| be16_at(raw, 2 * i)) =~= ids);
}

/// Reading back the encoded name table gives the table and the offset past it.
proof fn lemma_parse_names(s: Seq<u8>, p0: int, es: Seq<(u16, Seq<u8>)>)
    requires
        0 <= p0,
        p0 + names_bytes(es).len() <= s.len(),
        s.subrange(p0, p0 + names_bytes(es).len()) == names_bytes(es),
        forall|i: int| 0 <= i < es.len() ==> #[trigger] es[i].1.len() < 65536,
    ensures
        parse_names(s, p0, es.len()) == Some((es, p0 + names_bytes(es).len())),
    decreases es.len(),
{
    if es.len() > 0 {
        let init = es.drop_last();
        let e = es.last();
        let nb = names_bytes(init);
        let n0 = nb.len() as int;
        assert(names_bytes(es) == nb + entry_bytes(e));
        let whole = s.subrange(p0, p0 + names_bytes(es).len());
        assert forall|k: int| 0 <= k < n0 implies #[trigger] s.subrange(p0, p0 + n0)[k] == nb[k] by {
            assert(whole[k] == s[p0 + k]);
            assert((nb + entry_bytes(e))[k] == nb[k]);
        }
        assert(s.subrange(p0, p0 + n0) =~= nb);
        assert(forall|i: int| 0 <= i < init.len() ==> #[trigger] init[i] == es[i]);
        lemma_parse_names(s, p0, init);
        let p = p0 + n0;
        let eb = entry_bytes(e);
        assert(e.1.len() < 65536) by {
            assert(es[es.len() - 1] == e);
        }
        assert forall|k: int| 0 <= k < eb.len() implies s[p + k] == #[trigger] eb[k] by {
            assert(whole[n0 + k] == s[p + k]);
            assert((nb + eb)[n0 + k] == eb[k]);
        }
        assert(s.subrange(p, p + 2) =~= be16(e.0)) by {
            assert(s[p] == eb[0] && s[p + 1] == eb[1]);
        }
        assert(s.subrange(p + 2, p + 4) =~= be16(e.1.len() as u16)) by {
            assert(s[p + 2] == eb[2] && s[p + 3] == eb[3]);
        }
        assert(s.subrange(p + 4, p + 4 + e.1.len()) =~= e.1) by {
            assert forall|k: int| 0 <= k < e.1.len() implies s.subrange(p + 4, p + 4 + e.1.len())[k] == e.1[k] by {
                assert(s[p + (4 + k)] == eb[4 + k]);
            }
        }
        lemma_be16_at(s, p, e.0);
        lemma_be16_at(s, p + 2, e.1.len() as u16);
        assert(init.push(e) =~= es);
    } else {
        assert(es =~= Seq::<(u16, Seq<u8>)>::empty());
    }
}

/// A well-formed block, encoded with any zlib stream of its node data, decodes to itself.
pub proof fn lemma_parse_encoded(m: BlockView, z: Seq<u8>)
    requires
        view_wf(m),
        deflated_from(z, node_data(m)),
    ensures
        parse_block(encoded(m, z)) == Ok::<BlockView, DecodeError>(m),
{
    let e = encoded(m, z);
    let raw = node_data(m);
    let nb = names_bytes(m.names);
    let nl = nb.len() as int;
    let rest = be16(m.names.len() as u16) + nb + m.trailer;
    assert(e =~= seq![BLOCK_VERSION, m.flags] + (z + rest));
    assert(e.subrange(2, e.len() as int) =~= z + rest);
    assert(raw.len() == NODE_DATA_LEN);
    assert(zlib_inflated(z + rest, NODE_DATA_LEN as nat) == Some((raw, z.len())));
    let p = 2 + z.len() as int;
    assert(e.subrange(p, p + 2) =~= be16(m.names.len() as u16));
    lemma_be16_at(e, p, m.names.len() as u16);
    assert(e.subrange(p + 2, p + 2 + nl) =~= nb);
    lemma_parse_names(e, p + 2, m.names);
    assert(raw.subrange(0, 8192) =~= ids_bytes(m.ids));
    lemma_ids_round_trip(m.ids, raw);
    assert(raw.subrange(8192, 12288) =~= m.param1);
    assert(raw.subrange(12288, 16384) =~= m.param2);
    assert(e.subrange(p + 2 + nl, e.len() as int) =~= m.trailer);
}

proof fn lemma_parse_names_none(s: Seq<u8>, pos: int, k: nat, n: nat)
    requires
        k <= n,
        parse_names(s, pos, k) is None,
    ensures
        parse_names(s, pos, n) is None,
    decreases n - k,
{
    if k < n {
        lemma_parse_names_none(s, pos, k, (n - 1) as nat);
    }
}

/// Whatever a payload decodes to is a well-formed block.
pub proof fn lemma_parse_wf(b: Seq<u8>)
    requires
        parse_block(b) is Ok,
    ensures
        view_wf(parse_block(b)->Ok_0),
{
    let (raw, used) = zlib_inflated(b.subrange(2, b.len() as int), NODE_DATA_LEN as nat)->Some_0;
    let p = 2 + used as int;
    lemma_parse_names_wf(b, p + 2, be16_at(b, p) as nat);
}

proof fn lemma_parse_names_wf(s: Seq<u8>, pos: int, count: nat)
    requires
        parse_names(s, pos, count) is Some,
        pos >= 0,
    ensures
        ({
            let (es, q) = parse_names(s, pos, count)->Some_0;
            &&& q >= pos
            &&& es.len() == count
            &&& forall|i: int| 0 <= i < es.len() ==> #[trigger] es[i].1.len() < 65536
        }),
    decreases count,
{
    if count > 0 {
        lemma_parse_names_wf(s, pos, (count - 1) as nat);
        let (es0, p) = parse_names(s, pos, (count - 1) as nat)->Some_0;
        let n = be16_at(s, p + 2) as int;
        assert(p + 4 <= s.len() && p + 4 + n <= s.len());
        assert(s.subrange(p + 4, p + 4 + n).len() == n);
        let es = es0.push((be16_at(s, p), s.subrange(p + 4, p + 4 + n)));
        assert(parse_names(s, pos, count)->Some_0.0 == es);
        assert forall|i: int| 0 <= i < es.len() implies #[trigger] es[i].1.len() < 65536 by {
            if i < es0.len() {
                assert(es[i] == es0[i]);
            }
        }
    }
}

/// Decoding a payload, encoding the block again with any zlib stream of its
/// node data, and decoding that gives the same block.
pub proof fn lemma_block_round_trip(b: Seq<u8>, z: Seq<u8>)
    requires
        parse_block(b) is Ok,
        deflated_from(z, node_data(parse_block(b)->Ok_0)),
    ensures
        parse_block(encoded(parse_block(b)->Ok_0, z)) == parse_block(b),
{
    lemma_parse_wf(b);
    lemma_parse_encoded(parse_block(b)->Ok_0, z);
}

impl Block {
    /// Array lengths are 4096 and the name table fits its 16-bit counts.
    pub open spec fn wf(&self) -> bool {
        view_wf(self@)
    }

    /// Decodes a block payload.
    pub fn deserialize(data: &[u8]) -> (r: Result<Block, DecodeError>)
        ensures
            decode_view(r) == parse_block(data@),
            r is Ok ==> r->Ok_0.wf(),
    {
        let mut pos: usize = 0;
        let version = match u8::deserialize(data, &mut pos) {
            Ok(v) => v,
            Err(_) => return Err(DecodeError::CorruptBlockData),
        };
        assert(data@[0] == version) by {
            assert(data@.subrange(0, 1)[0] == data@[0]);
        }
        if version != BLOCK_VERSION {
            return Err(DecodeError::UnsupportedBlockVersion(version));
        }
        let flags = match u8::deserialize(data, &mut pos) {
            Ok(v) => v,
            Err(_) => return Err(DecodeError::CorruptBlockData),
        };
        assert(data@[1] == flags) by {
            assert(data@.subrange(1, 2)[0] == data@[1]);
        }
        let stream = vstd::slice::slice_subrange(data, 2, data.len());
        assert(stream@ == data@.subrange(2, data@.len() as int));
        let (raw, used) = match inflate_prefix(stream, NODE_DATA_LEN) {
            Some(x) => x,
            None => return Err(DecodeError::CorruptBlockData),
        };
        if raw.len() != NODE_DATA_LEN || data.len() - 2 - used < 2 {
            return Err(DecodeError::CorruptBlockData);
        }
        let mut ids: Vec<u16> = Vec::new();
        let mut i: usize = 0;
        while i < NODE_COUNT
            invariant
                i <= NODE_COUNT,
                raw@.len() == NODE_DATA_LEN,
                ids@ == Seq::new(i as nat, |k: int| be16_at(raw@, 2 * k)),
            decreases NODE_COUNT - i,
        {
            let v: u16 = (raw[2 * i] as u16) * 256 + (raw[2 * i + 1] as u16);
            ids.push(v);
            i = i + 1;
            assert(ids@ =~= Seq::new(i as nat, |k: int| be16_at(raw@, 2 * k)));
        }
        let param1 = copy_range(raw.as_slice(), 8192, 12288);
        let param2 = copy_range(raw.as_slice(), 12288, 16384);
        pos = 2 + used;
        let count = match u16::deserialize(data, &mut pos) {
            Ok(v) => v,
            Err(_) => return Err(DecodeError::CorruptBlockData),
        };
        proof {
            lemma_be16_at(data@, 2 + used, count);
        }
        let ghost start: int = pos as int;
        assert(split_node_data(raw@).0 =~= ids@);
        assert(parse_names(data@, start, count as nat) is None ==> parse_block(data@) == Err::<BlockView, DecodeError>(DecodeError::CorruptBlockData));
        let mut names: Vec<NameEntry> = Vec::new();
        let mut j: u16 = 0;
        while j < count
            invariant
                start == 4 + used,
                j <= count,
                parse_names(data@, start, count as nat) is None ==> parse_block(data@) == Err::<BlockView, DecodeError>(DecodeError::CorruptBlockData),
                start <= pos <= data@.len(),
                parse_names(data@, start, j as nat) == Some((names@.map_values(|e: NameEntry| entry_view(e)), pos as int)),
            decreases count - j,
        {
            let ghost p0 = pos as int;
            let id = match u16::deserialize(data, &mut pos) {
                Ok(v) => v,
                Err(_) => {
                    proof {
                        assert(parse_names(data@, start, (j + 1) as nat) is None);
                        lemma_parse_names_none(data@, start, (j + 1) as nat, count as nat);
                    }
                    return Err(DecodeError::CorruptBlockData);
                },
            };
            let len = match u16::deserialize(data, &mut pos) {
                Ok(v) => v,
                Err(_) => {
                    proof {
                        assert(parse_names(data@, start, (j + 1) as nat) is None);
                        lemma_parse_names_none(data@, start, (j + 1) as nat, count as nat);
                    }
                    return Err(DecodeError::CorruptBlockData);
                },
            };
            proof {
                lemma_be16_at(data@, p0, id);
                lemma_be16_at(data@, p0 + 2, len);
            }
            if data.len() - pos < len as usize {
                proof {
                    assert(parse_names(data@, start, (j + 1) as nat) is None);
                    lemma_parse_names_none(data@, start, (j + 1) as nat, count as nat);
                }
                return Err(DecodeError::CorruptBlockData);
            }
            let name = copy_range(data, pos, pos + len as usize);
            let ghost old_names = names@;
            names.push(NameEntry { id, name });
            pos = pos + len as usize;
            j = j + 1;
            assert(names@.map_values(|e: NameEntry| entry_view(e)) =~= old_names.map_values(
                |e: NameEntry| entry_view(e),
            ).push((id, data@.subrange(p0 + 4, pos as int))));
        }
        let trailer = copy_range(data, pos, data.len());
        let b = Block { flags, ids, param1, param2, names, trailer };
        proof {
            assert(b@.names == names@.map_values(|e: NameEntry| entry_view(e)));
            lemma_parse_wf(data@);
        }
        Ok(b)
    }

    /// Encodes the block; the node data is compressed as a zlib stream.
    pub fn serialize(&self) -> (r: Vec<u8>)
        requires
            self.wf(),
        ensures
            exists|z: Seq<u8>| deflated_from(z, node_data(self@)) && r@ == encoded(self@, z),
    {
        let mut raw: Vec<u8> = Vec::new();
        let mut i: usize = 0;
        while i < NODE_COUNT
            invariant
                i <= NODE_COUNT,
                self.wf(),
                raw@ == ids_bytes(self@.ids.subrange(0, i as int)),
            decreases NODE_COUNT - i,
        {
            let v = self.ids[i];
            raw.push((v / 256) as u8);
            raw.push((v % 256) as u8);
            i = i + 1;
            assert(raw@ =~= ids_bytes(self@.ids.subrange(0, i as int)));
        }
        assert(self@.ids.subrange(0, 4096) =~= self@.ids);
        push_all(&mut raw, self.param1.as_slice());
        push_all(&mut raw, self.param2.as_slice());
        let z = deflate(raw.as_slice());
        let mut out: Vec<u8> = Vec::new();
        out.push(BLOCK_VERSION);
        out.push(self.flags);
        push_all(&mut out, z.as_slice());
        let count: u16 = self.names.len() as u16;
        count.serialize(&mut out);
        let ghost head = out@;
        let ghost nv = self@.names;
        let mut j: usize = 0;
        while j < self.names.len()
            invariant
                j <= self.names@.len(),
                self.wf(),
                nv == self@.names,
                out@ == head + names_bytes(nv.subrange(0, j as int)),
            decreases self.names@.len() - j,
        {
            let e = &self.names[j];
            assert(nv[j as int] == entry_view(*e));
            assert(self@.names[j as int].1.len() < 65536);
            assert(e.name@.len() < 65536);
            e.id.serialize(&mut out);
            let len: u16 = e.name.len() as u16;
            len.serialize(&mut out);
            push_all(&mut out, e.name.as_slice());
            j = j + 1;
            assert(nv.subrange(0, j as int).drop_last() =~= nv.subrange(0, j - 1));
            assert(out@ =~= head + names_bytes(nv.subrange(0, j as int)));
        }
        assert(nv.subrange(0, nv.len() as int) =~= nv);
        push_all(&mut out, self.trailer.as_slice());
        assert(out@ =~= encoded(self@, z@));
        out
    }

    /// A block of air: every id 0, both parameters 0, no flags, a name table
    /// that maps id 0 to `air`, no trailing sections.
    pub fn air() -> (r: Block)
        ensures
            r.wf(),
            r@.flags == 0,
            forall|i: int| 0 <= i < NODE_COUNT ==> r@.ids[i] == 0 && r@.param1[i] == 0 && r@.param2[i] == 0,
            r@.names == seq![(0u16, seq![97u8, 105u8, 114u8])],
            r@.trailer.len() == 0,
    {
        let mut ids: Vec<u16> = Vec::new();
        let mut param1: Vec<u8> = Vec::new();
        let mut param2: Vec<u8> = Vec::new();
        let mut i: usize = 0;
        while i < NODE_COUNT
            invariant
                i <= NODE_COUNT,
                ids@.len() == i && param1@.len() == i && param2@.len() == i,
                forall|k: int| 0 <= k < i ==> ids@[k] == 0 && param1@[k] == 0 && param2@[k] == 0,
            decreases NODE_COUNT - i,
        {
            ids.push(0);
            param1.push(0);
            param2.push(0);
            i = i + 1;
        }
        let mut name: Vec<u8> = Vec::new();
        name.push(97);
        name.push(105);
        name.push(114);
        assert(name@ =~= seq![97u8, 105u8, 114u8]);
        let mut names: Vec<NameEntry> = Vec::new();
        names.push(NameEntry { id: 0, name });
        let b = Block { flags: 0, ids, param1, param2, names, trailer: Vec::new() };
        assert(b@.names[0] == (0u16, seq![97u8, 105u8, 114u8]));
        assert(b@.names =~= seq![(0u16, seq![97u8, 105u8, 114u8])]);
        b
    }

    /// The flags byte.
    pub fn flags(&self) -> (r: u8)
        ensures
            r == self@.flags,
    {
        self.flags
    }

    /// The content-id to node-name table.
    pub fn names(&self) -> (r: &Vec<NameEntry>)
        ensures
            r@.map_values(|e: NameEntry| entry_view(e)) == self@.names,
    {
        &self.names
    }

    /// The trailing sections, as stored.
    pub fn trailer(&self) -> (r: &Vec<u8>)
        ensures
            r@ == self@.trailer,
    {
        &self.trailer
    }

    /// The node at `pos`.
    pub fn get_node(&self, pos: NodePos3) -> (r: Node)
        requires
            self.wf(),
            pos.valid(),
        ensures
            r.id == self@.ids[pos.spec_offset()],
            r.param1 == self@.param1[pos.spec_offset()],
            r.param2 == self@.param2[pos.spec_offset()],
    {
        let index = pos.to_index();
        Node { id: self.ids[index], param1: self.param1[index], param2: self.param2[index] }
    }
}

} // verus!
