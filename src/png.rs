use vstd::prelude::*;
use vstd::string::StringSliceAdditionalSpecFns;

use crate::chunk::{
    be_u32_value, chunk_bytes, lemma_parse_chunk_bytes, parse_chunk, read_be_u32, append_bytes,
    Chunk, ChunkView, MAX_CHUNK_LEN,
};
use crate::chunk_type::{valid_tag, ChunkType};
use crate::error::PngError;

verus! {

/// The eight bytes that open every PNG stream.
pub open spec fn png_signature() -> Seq<u8> {
    seq![137u8, 80u8, 78u8, 71u8, 13u8, 10u8, 26u8, 10u8]
}

/// The abstract contents of a list of chunks.
pub open spec fn chunk_views(cs: Seq<Chunk>) -> Seq<ChunkView> {
    cs.map_values(|c: Chunk| c@)
}

/// The serialised chunks, one after another.
pub open spec fn chunks_bytes(cs: Seq<ChunkView>) -> Seq<u8>
    decreases cs.len(),
{
    if cs.len() == 0 {
        seq![]
    } else {
        chunk_bytes(cs[0]) + chunks_bytes(cs.drop_first())
    }
}

/// A serialised PNG stream: the signature, then the chunks.
pub open spec fn png_bytes(cs: Seq<ChunkView>) -> Seq<u8> {
    png_signature() + chunks_bytes(cs)
}

/// What parsing a stream of serialised chunks (without signature) gives.
#[verifier::opaque]
pub open spec fn parse_chunks(b: Seq<u8>) -> Result<Seq<ChunkView>, PngError>
    decreases b.len(),
{
    if b.len() == 0 {
        Ok(seq![])
    } else if b.len() < 4 {
        Err(PngError::TruncatedStream)
    } else {
        let len = be_u32_value(b.subrange(0, 4));
        if len > MAX_CHUNK_LEN {
            Err(PngError::InvalidLength)
        } else if b.len() < 12 + len {
            Err(PngError::TruncatedStream)
        } else {
            match parse_chunk(b.subrange(0, 12 + len)) {
                Err(e) => Err(e),
                Ok(c) => match parse_chunks(b.subrange(12 + len, b.len() as int)) {
                    Err(e) => Err(e),
                    Ok(rest) => Ok(seq![c] + rest),
                },
            }
        }
    }
}

/// What parsing a whole PNG stream gives.
pub open spec fn parse_png(b: Seq<u8>) -> Result<Seq<ChunkView>, PngError> {
    if b.len() < 8 || b.subrange(0, 8) != png_signature() {
        Err(PngError::BadSignature)
    } else {
        parse_chunks(b.subrange(8, b.len() as int))
    }
}

/// `r` with `acc` put in front of its chunks.
pub open spec fn prepend(acc: Seq<ChunkView>, r: Result<Seq<ChunkView>, PngError>) -> Result<
    Seq<ChunkView>,
    PngError,
> {
    match r {
        Ok(cs) => Ok(acc + cs),
        Err(e) => Err(e),
    }
}

/// Index `i` holds the first chunk whose type is `tag`.
pub open spec fn is_first_of_type(cs: Seq<ChunkView>, tag: Seq<u8>, i: int) -> bool {
    &&& 0 <= i < cs.len()
    &&& cs[i].chunk_type == tag
    &&& forall|j: int| 0 <= j < i ==> #[trigger] cs[j].chunk_type != tag
}

/// The index of the first chunk whose type is `tag`, where one has it.
pub open spec fn first_of_type(cs: Seq<ChunkView>, tag: Seq<u8>) -> int {
    choose|i: int| is_first_of_type(cs, tag, i)
}

/// The first chunk of a type sits at one index only.
pub proof fn lemma_first_of_type_unique(cs: Seq<ChunkView>, tag: Seq<u8>, i: int)
    requires
        is_first_of_type(cs, tag, i),
    ensures
        first_of_type(cs, tag) == i,
{
    let k = first_of_type(cs, tag);
    assert(is_first_of_type(cs, tag, k));
    if k < i {
        assert(cs[k].chunk_type != tag);
    }
    if i < k {
        assert(cs[i].chunk_type != tag);
    }
}

/// No chunk has type `tag`.
pub open spec fn lacks_type(cs: Seq<ChunkView>, tag: Seq<u8>) -> bool {
    forall|j: int| 0 <= j < cs.len() ==> #[trigger] cs[j].chunk_type != tag
}

/// The eight signature bytes.
pub fn standard_header() -> (r: [u8; 8])
    ensures
        r@ == png_signature(),
{
    let r: [u8; 8] = [137, 80, 78, 71, 13, 10, 26, 10];
    assert(r@ =~= png_signature());
    r
}

/// Whether chunk `c` has the type whose bytes are `tag`.
fn has_type(c: &Chunk, tag: &[u8]) -> (r: bool)
    ensures
        r == (c@.chunk_type == tag@),
{
    let t = c.chunk_type().bytes();
    if tag.len() != 4 {
        return false;
    }
    let same = t[0] == tag[0] && t[1] == tag[1] && t[2] == tag[2] && t[3] == tag[3];
    assert(same ==> t@ =~= tag@);
    same
}

/// A PNG image as a signature followed by an ordered list of chunks.
#[derive(Debug)]
pub struct Png {
    chunks: Vec<Chunk>,
}

impl View for Png {
    type V = Seq<ChunkView>;

    closed spec fn view(&self) -> Seq<ChunkView> {
        chunk_views(self.chunks@)
    }
}

impl Png {
    /// Every chunk is consistent.
    pub open spec fn wf(&self) -> bool {
        forall|i: int| 0 <= i < self@.len() ==> (#[trigger] self@[i]).wf()
    }

    /// A PNG holding the given chunks, in order; their positions are not checked.
    pub fn from_chunks(chunks: Vec<Chunk>) -> (r: Png)
        ensures
            r@ == chunk_views(chunks@),
    {
        Png { chunks }
    }

    /// The chunks, in order.
    pub fn chunks(&self) -> (r: &[Chunk])
        ensures
            chunk_views(r@) == self@,
    {
        self.chunks.as_slice()
    }

    /// Adds a chunk at the end of the list (after any `IEND` chunk).
    pub fn append_chunk(&mut self, chunk: Chunk)
        ensures
            final(self)@ == old(self)@.push(chunk@),
            old(self).wf() ==> final(self).wf(),
    {
        proof {
            use_type_invariant(&chunk);
        }
        self.chunks.push(chunk);
        assert(chunk_views(self.chunks@) =~= chunk_views(old(self).chunks@).push(chunk@));
    }

    /// The index of the first chunk whose type is `tag`, if any.
    fn position_of(&self, tag: &[u8]) -> (r: Option<usize>)
        ensures
            r matches Some(i) ==> is_first_of_type(self@, tag@, i as int),
            r is None ==> lacks_type(self@, tag@),
    {
        let mut i: usize = 0;
        while i < self.chunks.len()
            invariant
                i <= self.chunks@.len(),
                self@.len() == self.chunks@.len(),
                forall|j: int| 0 <= j < i ==> #[trigger] self@[j].chunk_type != tag@,
            decreases self.chunks@.len() - i,
        {
            if has_type(&self.chunks[i], tag) {
                return Some(i);
            }
            i = i + 1;
        }
        None
    }

    /// The first chunk whose type's bytes are those of `chunk_type`.
    pub fn chunk_by_type(&self, chunk_type: &str) -> (r: Option<&Chunk>)
        ensures
            r matches Some(c) ==> exists|i: int|
                is_first_of_type(self@, chunk_type.spec_bytes(), i) && c@ == #[trigger] self@[i],
            r is None <==> lacks_type(self@, chunk_type.spec_bytes()),
    {
        match self.position_of(chunk_type.as_bytes()) {
            Some(i) => Some(&self.chunks[i]),
            None => None,
        }
    }

    /// Removes and returns the first chunk whose type's bytes are those of
    /// `chunk_type`; the other chunks keep their order.
    pub fn remove_first_chunk(&mut self, chunk_type: &str) -> (r: Result<Chunk, PngError>)
        ensures
            r is Err <==> lacks_type(old(self)@, chunk_type.spec_bytes()),
            r matches Err(e) ==> e == PngError::ChunkNotFound && final(self)@ == old(self)@,
            old(self).wf() ==> final(self).wf(),
            r matches Ok(c) ==> exists|i: int|
                is_first_of_type(old(self)@, chunk_type.spec_bytes(), i) && c@ == #[trigger] old(
                    self,
                )@[i] && final(self)@ == old(self)@.remove(i),
    {
        match self.position_of(chunk_type.as_bytes()) {
            Some(i) => {
                let c = self.chunks.remove(i);
                assert(chunk_views(self.chunks@) =~= chunk_views(old(self).chunks@).remove(
                    i as int,
                ));
                Ok(c)
            },
            None => Err(PngError::ChunkNotFound),
        }
    }

    /// The serialised stream: the signature, then every chunk in order.
    pub fn as_bytes(&self) -> (r: Vec<u8>)
        ensures
            r@ == png_bytes(self@),
    {
        let mut out: Vec<u8> = Vec::new();
        let header = standard_header();
        append_bytes(&mut out, &header);
        let mut i: usize = 0;
        while i < self.chunks.len()
            invariant
                i <= self.chunks@.len(),
                self@.len() == self.chunks@.len(),
                out@ == png_signature() + chunks_bytes(self@.take(i as int)),
            decreases self.chunks@.len() - i,
        {
            let b = self.chunks[i].as_bytes();
            append_bytes(&mut out, b.as_slice());
            proof {
                lemma_chunks_bytes_push(self@.take(i as int), self@[i as int]);
                assert(self@.take(i + 1) =~= self@.take(i as int).push(self@[i as int]));
            }
            i = i + 1;
        }
        assert(self@.take(i as int) =~= self@);
        out
    }

    /// Parses a PNG stream: the signature, then chunks until the input ends.
    pub fn try_from(bytes: &[u8]) -> (r: Result<Png, PngError>)
        ensures
            match r {
                Ok(p) => parse_png(bytes@) == Ok::<Seq<ChunkView>, PngError>(p@) && p.wf(),
                Err(e) => parse_png(bytes@) == Err::<Seq<ChunkView>, PngError>(e),
            },
    {
        let n = bytes.len();
        if n < 8 {
            return Err(PngError::BadSignature);
        }
        let header = standard_header();
        let mut k: usize = 0;
        while k < 8
            invariant
                k <= 8,
                n == bytes@.len(),
                n >= 8,
                header@ == png_signature(),
                forall|j: int| 0 <= j < k ==> bytes@[j] == header@[j],
            decreases 8 - k,
        {
            if bytes[k] != header[k] {
                assert(bytes@.subrange(0, 8)[k as int] != png_signature()[k as int]);
                return Err(PngError::BadSignature);
            }
            k = k + 1;
        }
        assert(bytes@.subrange(0, 8) =~= png_signature());
        let ghost body = bytes@.subrange(8, n as int);
        let mut chunks: Vec<Chunk> = Vec::new();
        let mut off: usize = 8;
        while off < n
            invariant
                8 <= off <= n,
                n == bytes@.len(),
                parse_png(bytes@) == parse_chunks(body),
                body == bytes@.subrange(8, n as int),
                parse_chunks(body) == prepend(
                    chunk_views(chunks@),
                    parse_chunks(bytes@.subrange(off as int, n as int)),
                ),
                forall|i: int| 0 <= i < chunks@.len() ==> (#[trigger] chunks@[i])@.wf(),
            decreases n - off,
        {
            let ghost rest = bytes@.subrange(off as int, n as int);
            proof {
                reveal_with_fuel(parse_chunks, 1);
            }
            if n - off < 4 {
                return Err(PngError::TruncatedStream);
            }
            let length = read_be_u32(bytes, off);
            assert(rest.subrange(0, 4) =~= bytes@.subrange(off as int, off + 4));
            if length > MAX_CHUNK_LEN {
                return Err(PngError::InvalidLength);
            }
            let size = 12 + length as usize;
            if n - off < size {
                return Err(PngError::TruncatedStream);
            }
            let piece = vstd::slice::slice_subrange(bytes, off, off + size);
            assert(piece@ =~= rest.subrange(0, size as int));
            assert(bytes@.subrange((off + size) as int, n as int) =~= rest.subrange(
                size as int,
                rest.len() as int,
            ));
            let chunk = match Chunk::try_from(piece) {
                Ok(c) => c,
                Err(e) => return Err(e),
            };
            let ghost before = chunk_views(chunks@);
            chunks.push(chunk);
            proof {
                assert(chunk_views(chunks@) =~= before.push(chunk@));
                let tail = parse_chunks(bytes@.subrange((off + size) as int, n as int));
                match tail {
                    Ok(cs) => {
                        assert(before + (seq![chunk@] + cs) =~= before.push(chunk@) + cs);
                    },
                    Err(_) => {},
                }
            }
            off = off + size;
        }
        assert(bytes@.subrange(off as int, n as int) =~= Seq::<u8>::empty());
        proof {
            reveal_with_fuel(parse_chunks, 1);
        }
        assert(chunk_views(chunks@) + Seq::<ChunkView>::empty() =~= chunk_views(chunks@));
        Ok(Png { chunks })
    }
}

impl core::convert::TryFrom<&[u8]> for Png {
    type Error = PngError;

    fn try_from(value: &[u8]) -> Result<Png, PngError> {
        Png::try_from(value)
    }
}

impl vstd::std_specs::convert::TryFromSpecImpl<&[u8]> for Png {
    open spec fn obeys_try_from_spec() -> bool {
        false
    }

    open spec fn try_from_spec(v: &[u8]) -> Result<Png, PngError> {
        Err(PngError::BadSignature)
    }
}

/// Serialising one more chunk appends its bytes.
pub proof fn lemma_chunks_bytes_push(cs: Seq<ChunkView>, c: ChunkView)
    ensures
        chunks_bytes(cs.push(c)) == chunks_bytes(cs) + chunk_bytes(c),
    decreases cs.len(),
{
    if cs.len() == 0 {
        assert(cs.push(c).drop_first() =~= Seq::<ChunkView>::empty());
        assert(chunks_bytes(cs.push(c).drop_first()) =~= Seq::<u8>::empty());
        assert(cs.push(c)[0] == c);
        assert(chunks_bytes(cs.push(c)) =~= chunk_bytes(c));
        assert(chunks_bytes(cs) =~= Seq::<u8>::empty());
    } else {
        assert(cs.push(c).drop_first() =~= cs.drop_first().push(c));
        lemma_chunks_bytes_push(cs.drop_first(), c);
        assert(chunks_bytes(cs.push(c)) =~= chunks_bytes(cs) + chunk_bytes(c));
    }
}

/// Chunks that parse are serialised back to exactly their bytes.
pub proof fn lemma_parse_chunks_bytes(b: Seq<u8>)
    requires
        parse_chunks(b) is Ok,
    ensures
        chunks_bytes(parse_chunks(b)->Ok_0) == b,
        forall|i: int|
            0 <= i < parse_chunks(b)->Ok_0.len() ==> (#[trigger] parse_chunks(b)->Ok_0[i]).wf(),
    decreases b.len(),
{
    reveal_with_fuel(parse_chunks, 1);
    if b.len() == 0 {
        assert(chunks_bytes(Seq::<ChunkView>::empty()) =~= b);
    } else {
        let len = be_u32_value(b.subrange(0, 4));
        let head = b.subrange(0, 12 + len);
        let tail = b.subrange(12 + len, b.len() as int);
        lemma_parse_chunk_bytes(head);
        lemma_parse_chunks_bytes(tail);
        let c = parse_chunk(head)->Ok_0;
        let rest = parse_chunks(tail)->Ok_0;
        let cs = seq![c] + rest;
        assert(parse_chunks(b) == Ok::<Seq<ChunkView>, PngError>(cs));
        assert(cs.drop_first() =~= rest);
        assert(cs[0] == c);
        assert(chunks_bytes(cs) =~= b);
        assert forall|i: int| 0 <= i < cs.len() implies (#[trigger] cs[i]).wf() by {
            if i > 0 {
                assert(cs[i] == rest[i - 1]);
            }
        }
    }
}

/// Serialising a parsed PNG stream gives the stream back, byte for byte.
pub proof fn lemma_png_round_trip(b: Seq<u8>)
    requires
        parse_png(b) is Ok,
    ensures
        parse_png(b) matches Ok(cs) && png_bytes(cs) == b,
{
    let body = b.subrange(8, b.len() as int);
    assert(b.subrange(0, 8) == png_signature());
    assert(parse_png(b) == parse_chunks(body));
    lemma_parse_chunks_bytes(body);
    let cs = parse_chunks(body)->Ok_0;
    assert(chunks_bytes(cs) == body);
    assert(b =~= b.subrange(0, 8) + body);
}

/// Removing the first chunk of type `t` right after appending a chunk of type
/// `t` to chunks that have none takes out that chunk and leaves the chunks
/// as they were.
pub proof fn lemma_remove_after_append(cs: Seq<ChunkView>, c: ChunkView)
    requires
        lacks_type(cs, c.chunk_type),
    ensures
        !lacks_type(cs.push(c), c.chunk_type),
        first_of_type(cs.push(c), c.chunk_type) == cs.len(),
        cs.push(c)[first_of_type(cs.push(c), c.chunk_type)] == c,
        cs.push(c).remove(first_of_type(cs.push(c), c.chunk_type)) == cs,
{
    let all = cs.push(c);
    let n = cs.len() as int;
    assert(all[n] == c);
    assert forall|j: int| 0 <= j < n implies #[trigger] all[j].chunk_type != c.chunk_type by {
        assert(all[j] == cs[j]);
    }
    assert(is_first_of_type(all, c.chunk_type, n));
    lemma_first_of_type_unique(all, c.chunk_type, n);
    assert(all.remove(n) =~= cs);
}

} // verus!
