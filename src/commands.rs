use vstd::prelude::*;
use vstd::string::StringSliceAdditionalSpecFns;
use vstd::utf8::{decode_utf8, valid_utf8};

use crate::chunk::{Chunk, ChunkView, MAX_CHUNK_LEN};
use crate::chunk_type::{valid_tag, ChunkType};
use crate::error::PngError;
use crate::png::{
    first_of_type, is_first_of_type, lacks_type, lemma_first_of_type_unique, parse_png, png_bytes, Png,
};

verus! {

/// The stream that hiding `message` under `tag` in the PNG stream `png` gives:
/// the stream is parsed, the tag and the message length checked, and the new
/// chunk appended after the existing ones.
pub open spec fn encode_result(png: Seq<u8>, tag: Seq<u8>, message: Seq<u8>) -> Result<
    Seq<u8>,
    PngError,
> {
    match parse_png(png) {
        Err(e) => Err(e),
        Ok(cs) => if !valid_tag(tag) {
            Err(PngError::InvalidChunkType)
        } else if message.len() > MAX_CHUNK_LEN {
            Err(PngError::InvalidLength)
        } else {
            Ok(png_bytes(cs.push(ChunkView::of(tag, message))))
        },
    }
}

/// Hides `message` in a new chunk of type `chunk_type` at the end of the PNG
/// stream `png`, and returns the new stream.
pub fn encode_message(png: &[u8], chunk_type: &str, message: &str) -> (r: Result<
    Vec<u8>,
    PngError,
>)
    ensures
        match r {
            Ok(out) => encode_result(png@, chunk_type.spec_bytes(), message.spec_bytes()) == Ok::<
                Seq<u8>,
                PngError,
            >(out@),
            Err(e) => encode_result(png@, chunk_type.spec_bytes(), message.spec_bytes()) == Err::<
                Seq<u8>,
                PngError,
            >(e),
        },
{
    let mut image = match Png::try_from(png) {
        Ok(p) => p,
        Err(e) => return Err(e),
    };
    let tag = match ChunkType::from_str(chunk_type) {
        Ok(t) => t,
        Err(e) => return Err(e),
    };
    let data = vstd::slice::slice_to_vec(message.as_bytes());
    if data.len() > MAX_CHUNK_LEN as usize {
        return Err(PngError::InvalidLength);
    }
    image.append_chunk(Chunk::new(tag, data));
    Ok(image.as_bytes())
}

/// The first chunk of type `tag` in the PNG stream `png`.
pub open spec fn find_result(png: Seq<u8>, tag: Seq<u8>) -> Result<ChunkView, PngError> {
    match parse_png(png) {
        Err(e) => Err(e),
        Ok(cs) => if lacks_type(cs, tag) {
            Err(PngError::ChunkNotFound)
        } else {
            Ok(cs[first_of_type(cs, tag)])
        },
    }
}

/// The first chunk of type `tag` in the PNG stream `png`, with the stream
/// that is left once it is taken out.
pub open spec fn remove_result(png: Seq<u8>, tag: Seq<u8>) -> Result<(ChunkView, Seq<u8>), PngError> {
    match parse_png(png) {
        Err(e) => Err(e),
        Ok(cs) => if lacks_type(cs, tag) {
            Err(PngError::ChunkNotFound)
        } else {
            Ok((cs[first_of_type(cs, tag)], png_bytes(cs.remove(first_of_type(cs, tag)))))
        },
    }
}

/// The first chunk of type `chunk_type` in the PNG stream `png`.
pub fn find_chunk(png: &[u8], chunk_type: &str) -> (r: Result<Chunk, PngError>)
    ensures
        match r {
            Ok(c) => find_result(png@, chunk_type.spec_bytes()) == Ok::<ChunkView, PngError>(c@),
            Err(e) => find_result(png@, chunk_type.spec_bytes()) == Err::<ChunkView, PngError>(e),
        },
{
    let mut image = match Png::try_from(png) {
        Ok(p) => p,
        Err(e) => return Err(e),
    };
    let ghost cs = image@;
    let r = image.remove_first_chunk(chunk_type);
    proof {
        if r is Ok {
            let c = r->Ok_0;
            let i = choose|i: int|
                is_first_of_type(cs, chunk_type.spec_bytes(), i) && c@ == #[trigger] cs[i]
                    && image@ == cs.remove(i);
            lemma_first_of_type_unique(cs, chunk_type.spec_bytes(), i);
        }
    }
    r
}

/// The text held by the first chunk of type `chunk_type` in the PNG stream `png`.
pub fn decode_message(png: &[u8], chunk_type: &str) -> (r: Result<String, PngError>)
    ensures
        match find_result(png@, chunk_type.spec_bytes()) {
            Err(e) => r == Err::<String, PngError>(e),
            Ok(c) => match r {
                Ok(s) => valid_utf8(c.data) && s@ == decode_utf8(c.data),
                Err(e) => !valid_utf8(c.data) && e == PngError::NotUtf8,
            },
        },
{
    let c = match find_chunk(png, chunk_type) {
        Ok(c) => c,
        Err(e) => return Err(e),
    };
    c.data_as_string()
}

/// Removes the first chunk of type `chunk_type` from the PNG stream `png`, and
/// returns the new stream with the chunk taken out.
pub fn remove_message(png: &[u8], chunk_type: &str) -> (r: Result<(Vec<u8>, Chunk), PngError>)
    ensures
        match r {
            Ok((out, c)) => remove_result(png@, chunk_type.spec_bytes()) == Ok::<
                (ChunkView, Seq<u8>),
                PngError,
            >((c@, out@)),
            Err(e) => remove_result(png@, chunk_type.spec_bytes()) == Err::<
                (ChunkView, Seq<u8>),
                PngError,
            >(e),
        },
{
    let mut image = match Png::try_from(png) {
        Ok(p) => p,
        Err(e) => return Err(e),
    };
    let ghost cs = image@;
    match image.remove_first_chunk(chunk_type) {
        Ok(c) => {
            let out = image.as_bytes();
            proof {
                let i = choose|i: int|
                    is_first_of_type(cs, chunk_type.spec_bytes(), i) && c@ == #[trigger] cs[i]
                        && image@ == cs.remove(i);
                lemma_first_of_type_unique(cs, chunk_type.spec_bytes(), i);
            }
            Ok((out, c))
        },
        Err(e) => Err(e),
    }
}

} // verus!
