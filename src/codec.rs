use vstd::prelude::*;

verus! {

/// Failure of a fixed-width read.
#[derive(Debug, Clone, Copy, PartialEq, Eq)]
pub enum CodecError {
    /// Fewer bytes remained than the value needs.
    TruncatedInput,
}

/// Big-endian bytes of a 16-bit value.
pub open spec fn be16(v: u16) -> Seq<u8> {
    seq![(v / 256) as u8, (v % 256) as u8]
}

/// Big-endian bytes of a 32-bit value.
pub open spec fn be32(v: u32) -> Seq<u8> {
    seq![(v / 16777216) as u8, ((v / 65536) % 256) as u8, ((v / 256) % 256) as u8, (v % 256) as u8]
}

/// The 16-bit big-endian value at offset `i` of `s`.
pub open spec fn be16_at(s: Seq<u8>, i: int) -> u16 {
    (s[i] as int * 256 + s[i + 1] as int) as u16
}

/// Fixed-width big-endian encoding of an unsigned integer.
pub trait Serialize: Sized {
    /// Number of bytes of the encoding.
    spec fn width() -> nat;

    /// The bytes that stand for the value.
    spec fn encoding(&self) -> Seq<u8>;

    /// Appends the encoding of `self` to `out`.
    fn serialize(&self, out: &mut Vec<u8>)
        ensures
            final(out)@ == old(out)@ + self.encoding(),
            self.encoding().len() == Self::width(),
    ;

    /// Reads a value at `*pos` and moves `*pos` past it; fails, leaving
    /// `*pos` as it was, when fewer than `width()` bytes remain.
    fn deserialize(data: &[u8], pos: &mut usize) -> (r: Result<Self, CodecError>)
        ensures
            match r {
                Ok(v) => {
                    &&& *old(pos) + Self::width() <= data@.len()
                    &&& *final(pos) == *old(pos) + Self::width()
                    &&& v.encoding() == data@.subrange(*old(pos) as int, *final(pos) as int)
                },
                Err(e) => {
                    &&& e == CodecError::TruncatedInput
                    &&& *old(pos) + Self::width() > data@.len()
                    &&& *final(pos) == *old(pos)
                },
            },
    ;
}

impl Serialize for u8 {
    open spec fn width() -> nat {
        1
    }

    open spec fn encoding(&self) -> Seq<u8> {
        seq![*self]
    }

    fn serialize(&self, out: &mut Vec<u8>) {
        out.push(*self);
        assert(out@ =~= old(out)@ + seq![*self]);
    }

    fn deserialize(data: &[u8], pos: &mut usize) -> (r: Result<u8, CodecError>) {
        if *pos < data.len() {
            let v = data[*pos];
            *pos = *pos + 1;
            assert(seq![v] =~= data@.subrange(*pos - 1, *pos as int));
            Ok(v)
        } else {
            Err(CodecError::TruncatedInput)
        }
    }
}

impl Serialize for u16 {
    open spec fn width() -> nat {
        2
    }

    open spec fn encoding(&self) -> Seq<u8> {
        be16(*self)
    }

    fn serialize(&self, out: &mut Vec<u8>) {
        let v = *self;
        out.push((v / 256) as u8);
        out.push((v % 256) as u8);
        assert(out@ =~= old(out)@ + be16(v));
    }

    fn deserialize(data: &[u8], pos: &mut usize) -> (r: Result<u16, CodecError>) {
        if *pos < data.len() && data.len() - *pos >= 2 {
            let a = data[*pos];
            let b = data[*pos + 1];
            let v: u16 = (a as u16) * 256 + (b as u16);
            *pos = *pos + 2;
            assert(be16(v) =~= data@.subrange(*pos - 2, *pos as int));
            Ok(v)
        } else {
            Err(CodecError::TruncatedInput)
        }
    }
}

impl Serialize for u32 {
    open spec fn width() -> nat {
        4
    }

    open spec fn encoding(&self) -> Seq<u8> {
        be32(*self)
    }

    fn serialize(&self, out: &mut Vec<u8>) {
        let v = *self;
        out.push((v / 16777216) as u8);
        out.push(((v / 65536) % 256) as u8);
        out.push(((v / 256) % 256) as u8);
        out.push((v % 256) as u8);
        assert(out@ =~= old(out)@ + be32(v));
    }

    fn deserialize(data: &[u8], pos: &mut usize) -> (r: Result<u32, CodecError>) {
        if *pos < data.len() && data.len() - *pos >= 4 {
            let a = data[*pos];
            let b = data[*pos + 1];
            let c = data[*pos + 2];
            let d = data[*pos + 3];
            let v: u32 = (a as u32) * 16777216 + (b as u32) * 65536 + (c as u32) * 256 + (d as u32);
            proof {
                lemma_be32_parts(a, b, c, d, v);
            }
            *pos = *pos + 4;
            assert(be32(v) =~= data@.subrange(*pos - 4, *pos as int));
            Ok(v)
        } else {
            Err(CodecError::TruncatedInput)
        }
    }
}

proof fn lemma_be32_parts(a: u8, b: u8, c: u8, d: u8, v: u32)
    requires
        v == a as int * 16777216 + b as int * 65536 + c as int * 256 + d as int,
    ensures
        v / 16777216 == a,
        (v / 65536) % 256 == b,
        (v / 256) % 256 == c,
        v % 256 == d,
{
    assert(v / 16777216 == a) by (nonlinear_arith)
        requires v == a as int * 16777216 + b as int * 65536 + c as int * 256 + d as int,
                 b < 256, c < 256, d < 256;
    assert(v / 65536 == a as int * 256 + b) by (nonlinear_arith)
        requires v == a as int * 16777216 + b as int * 65536 + c as int * 256 + d as int,
                 c < 256, d < 256;
    assert(v / 256 == a as int * 65536 + b as int * 256 + c) by (nonlinear_arith)
        requires v == a as int * 16777216 + b as int * 65536 + c as int * 256 + d as int,
                 d < 256;
}

} // verus!
