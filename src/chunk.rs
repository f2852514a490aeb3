use vstd::prelude::*;
use vstd::utf8::{decode_utf8, valid_utf8};

use crate::chunk_type::{string_from_utf8, valid_tag, ChunkType};
use crate::error::PngError;

verus! {

/// The largest data length that a chunk may declare.
pub const MAX_CHUNK_LEN: u32 = 0x7fff_ffff;

/// The CRC-32 (ISO-HDLC: reflected, initial value and final XOR 0xFFFFFFFF,
/// polynomial 0x04C11DB7) of a byte sequence.
pub uninterp spec fn crc32_of(b: Seq<u8>) -> u32;

/// Relies on `crc::Crc::<u32>::checksum` with the `CRC_32_ISO_HDLC` algorithm:
/// the checksum depends on the bytes alone.
#[verifier::external_body]
fn crc32(bytes: &[u8]) -> (r: u32)
    ensures
        r == crc32_of(bytes@),
{
    crc::Crc::<u32>::new(&crc::CRC_32_ISO_HDLC).checksum(bytes)
}

/// The four big-endian bytes of `x`.
pub open spec fn be_u32_bytes(x: u32) -> Seq<u8> {
    seq![(x >> 24u32) as u8, (x >> 16u32) as u8, (x >> 8u32) as u8, x as u8]
}

/// The number that four big-endian bytes encode.
pub open spec fn be_u32_value(b: Seq<u8>) -> u32 {
    ((b[0] as u32) << 24u32) | ((b[1] as u32) << 16u32) | ((b[2] as u32) << 8u32) | (b[3] as u32)
}

/// Reading back the bytes of a number gives the number.
pub proof fn lemma_be_value_of_bytes(x: u32)
    ensures
        be_u32_value(be_u32_bytes(x)) == x,
{
    let b = be_u32_bytes(x);
    assert(((((x >> 24u32) as u8) as u32) << 24u32) | ((((x >> 16u32) as u8) as u32) << 16u32) | ((((
    x >> 8u32) as u8) as u32) << 8u32) | ((x as u8) as u32) == x) by (bit_vector);
}

/// Writing out the number that four bytes encode gives those bytes.
pub proof fn lemma_be_bytes_of_value(b: Seq<u8>)
    requires
        b.len() == 4,
    ensures
        be_u32_bytes(be_u32_value(b)) == b,
{
    let (b0, b1, b2, b3) = (b[0], b[1], b[2], b[3]);
    let v = be_u32_value(b);
    assert(v == ((b0 as u32) << 24u32) | ((b1 as u32) << 16u32) | ((b2 as u32) << 8u32) | (b3 as u32));
    assert(((((b0 as u32) << 24u32) | ((b1 as u32) << 16u32) | ((b2 as u32) << 8u32) | (b3 as u32))
        >> 24u32) as u8 == b0) by (bit_vector);
    assert(((((b0 as u32) << 24u32) | ((b1 as u32) << 16u32) | ((b2 as u32) << 8u32) | (b3 as u32))
        >> 16u32) as u8 == b1) by (bit_vector);
    assert(((((b0 as u32) << 24u32) | ((b1 as u32) << 16u32) | ((b2 as u32) << 8u32) | (b3 as u32))
        >> 8u32) as u8 == b2) by (bit_vector);
    assert((((b0 as u32) << 24u32) | ((b1 as u32) << 16u32) | ((b2 as u32) << 8u32) | (b3 as u32))
        as u8 == b3) by (bit_vector);
    assert(be_u32_bytes(v) =~= b);
}

/// The four big-endian bytes of `x`.
pub fn to_be_bytes(x: u32) -> (r: [u8; 4])
    ensures
        r@ == be_u32_bytes(x),
{
    let r: [u8; 4] = [(x >> 24u32) as u8, (x >> 16u32) as u8, (x >> 8u32) as u8, x as u8];
    assert(r@ =~= be_u32_bytes(x));
    r
}

/// The big-endian number held in `b[at..at + 4]`.
pub fn read_be_u32(b: &[u8], at: usize) -> (r: u32)
    requires
        at + 4 <= b@.len(),
    ensures
        r == be_u32_value(b@.subrange(at as int, at + 4)),
{
    let ghost s = b@.subrange(at as int, at + 4);
    assert(s[0] == b@[at as int] && s[1] == b@[at + 1] && s[2] == b@[at + 2] && s[3] == b@[at
        + 3]);
    ((b[at] as u32) << 24u32) | ((b[at + 1] as u32) << 16u32) | ((b[at + 2] as u32) << 8u32) | (b[at
        + 3] as u32)
}

/// Appends all of `src` to `out`.
pub fn append_bytes(out: &mut Vec<u8>, src: &[u8])
    ensures
        final(out)@ == old(out)@ + src@,
{
    let ghost start = out@;
    let mut i: usize = 0;
    while i < src.len()
        invariant
            i <= src@.len(),
            out@ == start + src@.subrange(0, i as int),
        decreases src@.len() - i,
    {
        out.push(src[i]);
        proof {
            assert(src@.subrange(0, i + 1) =~= src@.subrange(0, i as int).push(src@[i as int]));
        }
        i = i + 1;
    }
    assert(src@.subrange(0, src@.len() as int) =~= src@);
}

/// The abstract content of a chunk.
pub struct ChunkView {
    pub length: u32,
    pub chunk_type: Seq<u8>,
    pub data: Seq<u8>,
    pub crc: u32,
}

impl ChunkView {
    /// A consistent chunk: a valid tag, the length of its data within the PNG
    /// limit, and the CRC of its type and data.
    pub open spec fn wf(self) -> bool {
        &&& valid_tag(self.chunk_type)
        &&& self.length as int == self.data.len()
        &&& self.length <= MAX_CHUNK_LEN
        &&& self.crc == crc32_of(self.chunk_type + self.data)
    }

    /// The chunk that a tag and data make.
    pub open spec fn of(chunk_type: Seq<u8>, data: Seq<u8>) -> ChunkView {
        ChunkView {
            length: data.len() as u32,
            chunk_type,
            data,
            crc: crc32_of(chunk_type + data),
        }
    }
}

/// The serialised form of a chunk: length, type, data and CRC.
pub open spec fn chunk_bytes(c: ChunkView) -> Seq<u8> {
    be_u32_bytes(c.length) + c.chunk_type + c.data + be_u32_bytes(c.crc)
}

/// What parsing `b` as exactly one chunk gives.
#[verifier::opaque]
pub open spec fn parse_chunk(b: Seq<u8>) -> Result<ChunkView, PngError> {
    if b.len() < 12 {
        Err(PngError::InvalidLength)
    } else {
        let len = be_u32_value(b.subrange(0, 4));
        if len > MAX_CHUNK_LEN || b.len() != 12 + len {
            Err(PngError::InvalidLength)
        } else if !valid_tag(b.subrange(4, 8)) {
            Err(PngError::InvalidChunkType)
        } else {
            let t = b.subrange(4, 8);
            let d = b.subrange(8, 8 + len);
            let crc = be_u32_value(b.subrange(8 + len, 12 + len));
            if crc != crc32_of(t + d) {
                Err(PngError::InvalidCrc)
            } else {
                Ok(ChunkView { length: len, chunk_type: t, data: d, crc })
            }
        }
    }
}

/// A length-prefixed, CRC-protected record of a PNG stream.
#[derive(Debug)]
pub struct Chunk {
    length: u32,
    chunk_type: ChunkType,
    chunk_data: Vec<u8>,
    crc: u32,
}

impl View for Chunk {
    type V = ChunkView;

    closed spec fn view(&self) -> ChunkView {
        ChunkView {
            length: self.length,
            chunk_type: self.chunk_type@,
            data: self.chunk_data@,
            crc: self.crc,
        }
    }
}

/// The CRC of a tag followed by data.
fn checksum_of(chunk_type: &ChunkType, data: &[u8]) -> (r: u32)
    ensures
        r == crc32_of(chunk_type@ + data@),
{
    let mut buf: Vec<u8> = Vec::new();
    let t = chunk_type.bytes();
    append_bytes(&mut buf, &t);
    append_bytes(&mut buf, data);
    crc32(buf.as_slice())
}

impl Chunk {
    /// Whether the chunk is consistent.
    #[verifier::type_invariant]
    pub open spec fn wf(&self) -> bool {
        self@.wf()
    }

    /// A chunk of the given type and data, with its length and CRC computed.
    pub fn new(chunk_type: ChunkType, data: Vec<u8>) -> (r: Chunk)
        requires
            data@.len() <= MAX_CHUNK_LEN,
        ensures
            r@ == ChunkView::of(chunk_type@, data@),
            r.wf(),
    {
        proof {
            use_type_invariant(&chunk_type);
        }
        let length = data.len() as u32;
        let crc = checksum_of(&chunk_type, data.as_slice());
        Chunk { length, chunk_type, chunk_data: data, crc }
    }

    /// The number of data bytes.
    pub fn length(&self) -> (r: u32)
        ensures
            r == self@.length,
    {
        self.length
    }

    /// The chunk's type.
    pub fn chunk_type(&self) -> (r: &ChunkType)
        ensures
            r@ == self@.chunk_type,
            self.wf(),
    {
        proof {
            use_type_invariant(self);
        }
        &self.chunk_type
    }

    /// The stored CRC.
    pub fn crc(&self) -> (r: u32)
        ensures
            r == self@.crc,
    {
        self.crc
    }

    /// The data bytes.
    pub fn data(&self) -> (r: &[u8])
        ensures
            r@ == self@.data,
    {
        self.chunk_data.as_slice()
    }

    /// The data decoded as UTF-8 text.
    pub fn data_as_string(&self) -> (r: Result<String, PngError>)
        ensures
            r is Ok <==> valid_utf8(self@.data),
            r matches Ok(s) ==> s@ == decode_utf8(self@.data),
            r matches Err(e) ==> e == PngError::NotUtf8,
    {
        let copy = vstd::slice::slice_to_vec(self.chunk_data.as_slice());
        match string_from_utf8(copy) {
            Some(s) => Ok(s),
            None => Err(PngError::NotUtf8),
        }
    }

    /// The serialised chunk: big-endian length, type, data, big-endian CRC.
    pub fn as_bytes(&self) -> (r: Vec<u8>)
        ensures
            r@ == chunk_bytes(self@),
    {
        let mut out: Vec<u8> = Vec::new();
        let len = to_be_bytes(self.length);
        append_bytes(&mut out, &len);
        let t = self.chunk_type.bytes();
        append_bytes(&mut out, &t);
        append_bytes(&mut out, self.chunk_data.as_slice());
        let crc = to_be_bytes(self.crc);
        append_bytes(&mut out, &crc);
        out
    }

    /// Parses exactly one serialised chunk, checking its length, type and CRC.
    pub fn try_from(bytes: &[u8]) -> (r: Result<Chunk, PngError>)
        ensures
            match r {
                Ok(c) => parse_chunk(bytes@) == Ok::<ChunkView, PngError>(c@) && c.wf(),
                Err(e) => parse_chunk(bytes@) == Err::<ChunkView, PngError>(e),
            },
    {
        proof {
            reveal(parse_chunk);
        }
        let n = bytes.len();
        if n < 12 {
            return Err(PngError::InvalidLength);
        }
        let length = read_be_u32(bytes, 0);
        if length > MAX_CHUNK_LEN || n - 12 != length as usize {
            return Err(PngError::InvalidLength);
        }
        let tag: [u8; 4] = [bytes[4], bytes[5], bytes[6], bytes[7]];
        assert(tag@ =~= bytes@.subrange(4, 8));
        let chunk_type = match ChunkType::try_from(tag) {
            Ok(t) => t,
            Err(e) => return Err(e),
        };
        let end = 8 + length as usize;
        let data = vstd::slice::slice_to_vec(vstd::slice::slice_subrange(bytes, 8, end));
        let stored = read_be_u32(bytes, end);
        let computed = checksum_of(&chunk_type, data.as_slice());
        if stored != computed {
            return Err(PngError::InvalidCrc);
        }
        Ok(Chunk { length, chunk_type, chunk_data: data, crc: stored })
    }
}

impl core::convert::TryFrom<&[u8]> for Chunk {
    type Error = PngError;

    fn try_from(value: &[u8]) -> Result<Chunk, PngError> {
        Chunk::try_from(value)
    }
}

impl vstd::std_specs::convert::TryFromSpecImpl<&[u8]> for Chunk {
    open spec fn obeys_try_from_spec() -> bool {
        false
    }

    open spec fn try_from_spec(v: &[u8]) -> Result<Chunk, PngError> {
        Err(PngError::InvalidLength)
    }
}

/// The CRC stored in a new chunk is the CRC of its type followed by its data,
/// and its length is that of the data.
pub proof fn lemma_new_chunk_fields(chunk_type: Seq<u8>, data: Seq<u8>)
    requires
        valid_tag(chunk_type),
        data.len() <= MAX_CHUNK_LEN,
    ensures
        ChunkView::of(chunk_type, data).length as int == data.len(),
        ChunkView::of(chunk_type, data).crc == crc32_of(chunk_type + data),
        ChunkView::of(chunk_type, data).wf(),
{
}

/// Parsing a serialised chunk gives the chunk back.
pub proof fn lemma_chunk_round_trip(c: ChunkView)
    requires
        c.wf(),
    ensures
        parse_chunk(chunk_bytes(c)) == Ok::<ChunkView, PngError>(c),
{
    reveal(parse_chunk);
    let b = chunk_bytes(c);
    let len = c.length as int;
    assert(b.subrange(0, 4) =~= be_u32_bytes(c.length));
    lemma_be_value_of_bytes(c.length);
    assert(b.subrange(4, 8) =~= c.chunk_type);
    assert(b.subrange(8, 8 + len) =~= c.data);
    assert(b.subrange(8 + len, 12 + len) =~= be_u32_bytes(c.crc));
    lemma_be_value_of_bytes(c.crc);
}

/// A chunk that parses is serialised back to exactly its bytes.
pub proof fn lemma_parse_chunk_bytes(b: Seq<u8>)
    requires
        parse_chunk(b) is Ok,
    ensures
        parse_chunk(b) matches Ok(c) && chunk_bytes(c) == b && c.wf(),
{
    reveal(parse_chunk);
    let len = be_u32_value(b.subrange(0, 4));
    lemma_be_bytes_of_value(b.subrange(0, 4));
    lemma_be_bytes_of_value(b.subrange(8 + len, 12 + len));
    let c = parse_chunk(b)->Ok_0;
    assert(chunk_bytes(c) =~= b);
}

} // verus!
