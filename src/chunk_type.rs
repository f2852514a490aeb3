use vstd::prelude::*;
use vstd::string::StringSliceAdditionalSpecFns;
use vstd::utf8::{decode_utf8, encode_utf8, is_leading_byte_width_1, partial_valid_utf8, valid_utf8};

use crate::error::PngError;

verus! {

/// An ASCII letter: `A`-`Z` or `a`-`z`.
pub open spec fn is_letter(b: u8) -> bool {
    (65 <= b && b <= 90) || (97 <= b && b <= 122)
}

/// An uppercase ASCII letter.
pub open spec fn is_upper(b: u8) -> bool {
    65 <= b && b <= 90
}

/// Bit 5 (the 0x20 bit) of a byte is clear.
pub open spec fn bit5_clear(b: u8) -> bool {
    b & 0x20u8 == 0
}

/// Four bytes, each an ASCII letter: the tags that a chunk type may carry.
pub open spec fn valid_tag(b: Seq<u8>) -> bool {
    b.len() == 4 && forall|i: int| 0 <= i < 4 ==> #[trigger] is_letter(b[i])
}

/// For a letter, bit 5 clear is the same as upper case.
pub proof fn lemma_letter_case(b: u8)
    requires
        is_letter(b),
    ensures
        bit5_clear(b) <==> is_upper(b),
{
    assert(((65 <= b && b <= 90) || (97 <= b && b <= 122)) ==> ((b & 0x20u8 == 0) <==> (65 <= b
        && b <= 90))) by (bit_vector);
}

/// The four-byte tag of a chunk; every value has four ASCII letters.
#[derive(Debug, Clone, Copy, PartialEq, Eq, Structural)]
pub struct ChunkType {
    b0: u8,
    b1: u8,
    b2: u8,
    b3: u8,
}

impl View for ChunkType {
    type V = Seq<u8>;

    closed spec fn view(&self) -> Seq<u8> {
        seq![self.b0, self.b1, self.b2, self.b3]
    }
}

/// Relies on `String::from_utf8`: it succeeds exactly on valid UTF-8 and then
/// holds the characters that the bytes encode.
#[verifier::external_body]
pub(crate) fn string_from_utf8(bytes: Vec<u8>) -> (r: Option<String>)
    ensures
        r is Some <==> valid_utf8(bytes@),
        r matches Some(s) ==> s@ == decode_utf8(bytes@),
{
    String::from_utf8(bytes).ok()
}

impl ChunkType {
    /// A chunk type holds four letters.
    #[verifier::type_invariant]
    pub open spec fn wf(&self) -> bool {
        valid_tag(self@)
    }

    /// Chunk types are equal exactly when their bytes are.
    pub proof fn lemma_view_eq(&self, other: &ChunkType)
        ensures
            (self@ == other@) <==> (*self == *other),
    {
        if self@ == other@ {
            assert(self@[0] == other@[0] && self@[1] == other@[1]);
            assert(self@[2] == other@[2] && self@[3] == other@[3]);
        }
    }

    /// Builds a chunk type from four bytes, which must all be ASCII letters.
    pub fn try_from(bytes: [u8; 4]) -> (r: Result<ChunkType, PngError>)
        ensures
            r is Ok <==> valid_tag(bytes@),
            r matches Ok(t) ==> t@ == bytes@ && t.wf(),
            r matches Err(e) ==> e == PngError::InvalidChunkType,
    {
        if Self::is_digit_valid(bytes) {
            let t = ChunkType { b0: bytes[0], b1: bytes[1], b2: bytes[2], b3: bytes[3] };
            assert(t@ =~= bytes@);
            Ok(t)
        } else {
            Err(PngError::InvalidChunkType)
        }
    }

    /// Whether all four bytes are ASCII letters.
    pub fn is_digit_valid(bytes: [u8; 4]) -> (r: bool)
        ensures
            r == valid_tag(bytes@),
    {
        let mut i: usize = 0;
        while i < 4
            invariant
                i <= 4,
                bytes@.len() == 4,
                forall|j: int| 0 <= j < i ==> #[trigger] is_letter(bytes@[j]),
            decreases 4 - i,
        {
            let b = bytes[i];
            if !((b >= 65 && b <= 90) || (b >= 97 && b <= 122)) {
                assert(!is_letter(bytes@[i as int]));
                return false;
            }
            i = i + 1;
        }
        true
    }

    /// Builds a chunk type from a string whose UTF-8 bytes must be exactly
    /// four ASCII letters.
    pub fn from_str(s: &str) -> (r: Result<ChunkType, PngError>)
        ensures
            r is Ok <==> valid_tag(s.spec_bytes()),
            r matches Ok(t) ==> t@ == s.spec_bytes() && t.wf(),
            r matches Err(e) ==> e == PngError::InvalidChunkType,
    {
        let b = s.as_bytes();
        if b.len() != 4 {
            return Err(PngError::InvalidChunkType);
        }
        let bytes: [u8; 4] = [b[0], b[1], b[2], b[3]];
        assert(bytes@ =~= b@);
        Self::try_from(bytes)
    }

    /// The four bytes of the tag, in order.
    pub fn bytes(&self) -> (r: [u8; 4])
        ensures
            r@ == self@,
            self.wf(),
    {
        proof {
            use_type_invariant(self);
        }
        let r: [u8; 4] = [self.b0, self.b1, self.b2, self.b3];
        assert(r@ =~= self@);
        r
    }

    /// The tag as text; its UTF-8 encoding is the four bytes of the tag.
    pub fn to_string(&self) -> (r: String)
        ensures
            encode_utf8(r@) == self@,
    {
        proof {
            use_type_invariant(self);
        }
        let mut v: Vec<u8> = Vec::new();
        v.push(self.b0);
        v.push(self.b1);
        v.push(self.b2);
        v.push(self.b3);
        assert(v@ =~= self@);
        proof {
            assert forall|i: int| 0 <= i < 4 implies #[trigger] is_leading_byte_width_1(v@[i]) by {
                assert(is_letter(v@[i]));
            }
            assert(v@.subrange(0, 0).len() == 0);
            assert(partial_valid_utf8(v@, 0));
            vstd::utf8::partial_valid_utf8_extend_ascii_block(v@, 0, 4);
            assert(v@.subrange(0, 4) =~= v@);
            vstd::utf8::decode_utf8_encode_utf8(v@);
        }
        match string_from_utf8(v) {
            Some(s) => s,
            None => String::new(),
        }
    }

    /// Whether the tag is standards-valid: four letters with the reserved
    /// (third) byte in upper case.
    pub fn is_valid(&self) -> (r: bool)
        ensures
            r == (valid_tag(self@) && is_upper(self@[2])),
            r == is_upper(self@[2]),
    {
        proof {
            use_type_invariant(self);
        }
        let ok = Self::is_digit_valid(self.bytes());
        if !ok {
            return false;
        }
        proof {
            lemma_letter_case(self.b2);
        }
        self.is_reserved_bit_valid()
    }

    /// Critical chunks have bit 5 of the first byte clear (upper case).
    pub fn is_critical(&self) -> (r: bool)
        ensures
            r == bit5_clear(self@[0]),
            r <==> is_upper(self@[0]),
    {
        proof {
            use_type_invariant(self);
            assert(is_letter(self@[0]));
            lemma_letter_case(self.b0);
        }
        self.b0 & 0x20u8 == 0
    }

    /// Public chunks have bit 5 of the second byte clear (upper case).
    pub fn is_public(&self) -> (r: bool)
        ensures
            r == bit5_clear(self@[1]),
            r <==> is_upper(self@[1]),
    {
        proof {
            use_type_invariant(self);
            assert(is_letter(self@[1]));
            lemma_letter_case(self.b1);
        }
        self.b1 & 0x20u8 == 0
    }

    /// The reserved bit is valid when bit 5 of the third byte is clear: for a
    /// chunk type, exactly when that byte is upper case.
    pub fn is_reserved_bit_valid(&self) -> (r: bool)
        ensures
            r == bit5_clear(self@[2]),
            r <==> is_upper(self@[2]),
    {
        proof {
            use_type_invariant(self);
            assert(is_letter(self@[2]));
            lemma_letter_case(self.b2);
        }
        self.b2 & 0x20u8 == 0
    }

    /// Safe-to-copy chunks have bit 5 of the fourth byte set (lower case).
    pub fn is_safe_to_copy(&self) -> (r: bool)
        ensures
            r == !bit5_clear(self@[3]),
            r <==> !is_upper(self@[3]),
    {
        proof {
            use_type_invariant(self);
            assert(is_letter(self@[3]));
            lemma_letter_case(self.b3);
        }
        self.b3 & 0x20u8 != 0
    }
}

impl core::convert::TryFrom<[u8; 4]> for ChunkType {
    type Error = PngError;

    fn try_from(value: [u8; 4]) -> Result<ChunkType, PngError> {
        let r = ChunkType::try_from(value);
        proof {
            if let Ok(t) = r {
                t.lemma_view_eq(&ChunkType { b0: value[0], b1: value[1], b2: value[2], b3: value[3] });
            }
        }
        r
    }
}

impl vstd::std_specs::convert::TryFromSpecImpl<[u8; 4]> for ChunkType {
    open spec fn obeys_try_from_spec() -> bool {
        true
    }

    closed spec fn try_from_spec(v: [u8; 4]) -> Result<ChunkType, PngError> {
        if valid_tag(v@) {
            Ok(ChunkType { b0: v@[0], b1: v@[1], b2: v@[2], b3: v@[3] })
        } else {
            Err(PngError::InvalidChunkType)
        }
    }
}

impl core::str::FromStr for ChunkType {
    type Err = PngError;

    fn from_str(s: &str) -> Result<ChunkType, PngError> {
        ChunkType::from_str(s)
    }
}

/// A chunk type's bytes, and any text whose UTF-8 encoding is those bytes (as
/// `to_string` gives), are a valid tag, and every chunk type built from that
/// tag (by `try_from` or `from_str`) is the same chunk type.
pub proof fn lemma_chunk_type_round_trip(t: ChunkType, u: ChunkType, text: Seq<char>)
    requires
        t.wf(),
        encode_utf8(text) == t@,
    ensures
        valid_tag(t@),
        valid_tag(encode_utf8(text)),
        u@ == t@ ==> u == t,
        u@ == encode_utf8(text) ==> u == t,
{
    t.lemma_view_eq(&u);
}

} // verus!
