use vstd::prelude::*;

verus! {

/// The ways in which decoding or editing a PNG stream can fail.
#[derive(Debug, Clone, Copy, PartialEq, Eq, Structural)]
pub enum PngError {
    /// The stream does not start with the eight-byte PNG signature.
    BadSignature,
    /// A chunk header or body runs past the end of the stream.
    TruncatedStream,
    /// A declared chunk length is too large or disagrees with the input.
    InvalidLength,
    /// A tag is not four ASCII letters.
    InvalidChunkType,
    /// A stored CRC does not match the one computed over type and data.
    InvalidCrc,
    /// Chunk data asked for as text is not UTF-8.
    NotUtf8,
    /// No chunk carries the requested tag.
    ChunkNotFound,
}

} // verus!
