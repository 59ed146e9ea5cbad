//! Text on its way to and from a foreign caller.
//!
//! A foreign string is a buffer of bytes that ends in a single NUL and holds
//! no other: the UTF-8 encoding of the text, then the terminator. The view of
//! a [`ForeignString`] is the whole buffer, terminator included.

use vstd::prelude::*;
use vstd::slice::slice_subrange;
use vstd::utf8::{
    char_is_scalar, char_u32_cast, decode_utf8, encode_scalar, encode_utf8,
    encode_utf8_decode_utf8, encode_utf8_valid_utf8, has_width_1_encoding, valid_utf8,
};
use crate::error::BoundaryError;

verus! {

/// A NUL byte occurs somewhere in `bytes`.
pub open spec fn has_nul(bytes: Seq<u8>) -> bool {
    exists|i: int| 0 <= i < bytes.len() && #[trigger] bytes[i] == 0u8
}

/// The first NUL of `buf` stands at index `n`.
pub open spec fn ends_at(buf: Seq<u8>, n: int) -> bool {
    &&& 0 <= n < buf.len()
    &&& buf[n] == 0u8
    &&& forall|j: int| 0 <= j < n ==> #[trigger] buf[j] != 0u8
}

/// The bytes of `buf` that come before its first NUL.
pub open spec fn text_bytes(buf: Seq<u8>) -> Seq<u8>
    recommends
        has_nul(buf),
{
    buf.subrange(0, choose|n: int| ends_at(buf, n))
}

/// `buf` is a foreign string: its only NUL is its last byte.
pub open spec fn is_foreign(buf: Seq<u8>) -> bool {
    ends_at(buf, buf.len() - 1)
}

/// The text can cross the boundary: its encoding holds no NUL.
pub open spec fn encodable(text: Seq<char>) -> bool {
    !has_nul(encode_utf8(text))
}

/// No character of the text is NUL.
pub open spec fn nul_free(text: Seq<char>) -> bool {
    forall|i: int| 0 <= i < text.len() ==> #[trigger] text[i] != '\0'
}

/// The foreign string that stands for `text`.
pub open spec fn foreign(text: Seq<char>) -> Seq<u8>
    recommends
        encodable(text),
{
    encode_utf8(text).push(0u8)
}

/// What reading the buffer behind a pointer gives; `None` is the null pointer.
pub open spec fn decoded(ptr: Option<Seq<u8>>) -> Result<Seq<char>, BoundaryError> {
    match ptr {
        None => Err(BoundaryError::InvalidInput),
        Some(buf) => if !has_nul(buf) {
            Err(BoundaryError::InvalidInput)
        } else if !valid_utf8(text_bytes(buf)) {
            Err(BoundaryError::Encoding)
        } else {
            Ok(decode_utf8(text_bytes(buf)))
        },
    }
}

/// The bytes behind a pointer that may be null.
pub open spec fn bytes_at(ptr: Option<&[u8]>) -> Option<Seq<u8>> {
    match ptr {
        None => None,
        Some(buf) => Some(buf@),
    }
}

/// A decoding result with its text taken as a sequence of characters.
pub open spec fn text_of(r: Result<String, BoundaryError>) -> Result<Seq<char>, BoundaryError> {
    match r {
        Ok(s) => Ok(s@),
        Err(e) => Err(e),
    }
}

/// An owned, NUL-terminated buffer that a foreign caller can read as a string.
#[derive(Debug, PartialEq, Eq)]
pub struct ForeignString {
    bytes: Vec<u8>,
}

impl View for ForeignString {
    type V = Seq<u8>;

    closed spec fn view(&self) -> Seq<u8> {
        self.bytes@
    }
}

impl ForeignString {
    #[verifier::type_invariant]
    spec fn well_formed(&self) -> bool {
        is_foreign(self.bytes@)
    }

    /// Takes over a buffer that already has the shape of a foreign string.
    pub fn from_vec_with_nul(bytes: Vec<u8>) -> (r: Result<ForeignString, BoundaryError>)
        ensures
            r is Ok <==> is_foreign(bytes@),
            r matches Ok(f) ==> f@ == bytes@,
            r matches Err(e) ==> e == BoundaryError::InvalidInput,
    {
        let first = find_nul(bytes.as_slice());
        match first {
            Some(n) => if n == bytes.len() - 1 {
                Ok(ForeignString { bytes })
            } else {
                Err(BoundaryError::InvalidInput)
            },
            None => Err(BoundaryError::InvalidInput),
        }
    }

    /// The buffer, terminator included.
    pub fn as_bytes_with_nul(&self) -> (buf: &[u8])
        ensures
            buf@ == self@,
            is_foreign(buf@),
    {
        proof {
            use_type_invariant(self);
        }
        self.bytes.as_slice()
    }

    /// Gives the buffer up, terminator included.
    pub fn into_bytes_with_nul(self) -> (buf: Vec<u8>)
        ensures
            buf@ == self@,
            is_foreign(buf@),
    {
        proof {
            use_type_invariant(&self);
        }
        self.bytes
    }
}

/// Where the first NUL of `bytes` stands, if it has one.
pub fn find_nul(bytes: &[u8]) -> (at: Option<usize>)
    ensures
        at is Some <==> has_nul(bytes@),
        at matches Some(n) ==> ends_at(bytes@, n as int),
{
    let mut i: usize = 0;
    while i < bytes.len()
        invariant
            i <= bytes.len(),
            forall|j: int| 0 <= j < i ==> #[trigger] bytes@[j] != 0u8,
        decreases bytes.len() - i,
    {
        if bytes[i] == 0 {
            return Some(i);
        }
        i += 1;
    }
    None
}

/// `std::str::from_utf8`, with the error dropped.
///
/// Trusted: the call succeeds exactly on the byte sequences that are
/// well-formed UTF-8, and the string it gives back encodes to those very
/// bytes.
#[verifier::external_body]
fn utf8_str(bytes: &[u8]) -> (r: Option<&str>)
    ensures
        r is Some <==> valid_utf8(bytes@),
        r matches Some(s) ==> encode_utf8(s@) == bytes@,
{
    std::str::from_utf8(bytes).ok()
}

/// Turns text into a foreign string.
///
/// Text with an embedded NUL cannot be represented and is refused; nothing is
/// cut short.
pub fn to_foreign(text: &str) -> (r: Result<ForeignString, BoundaryError>)
    ensures
        r is Ok <==> encodable(text@),
        r is Ok <==> nul_free(text@),
        r matches Ok(f) ==> f@ == foreign(text@),
        r matches Err(e) ==> e == BoundaryError::Encoding,
{
    proof {
        lemma_encodable_iff_nul_free(text@);
    }
    let src = text.as_bytes();
    let mut bytes: Vec<u8> = Vec::new();
    let mut i: usize = 0;
    while i < src.len()
        invariant
            i <= src.len(),
            src@ == encode_utf8(text@),
            encodable(text@) <==> nul_free(text@),
            bytes@ == src@.subrange(0, i as int),
            forall|j: int| 0 <= j < i ==> #[trigger] src@[j] != 0u8,
        decreases src.len() - i,
    {
        let b = src[i];
        if b == 0 {
            return Err(BoundaryError::Encoding);
        }
        bytes.push(b);
        i += 1;
        assert(bytes@ =~= src@.subrange(0, i as int));
    }
    assert(bytes@ =~= src@);
    bytes.push(0);
    Ok(ForeignString { bytes })
}

/// Reads the string behind a pointer handed in by a foreign caller.
///
/// The text is what stands before the first NUL of the buffer. A null
/// pointer and a buffer without a NUL are invalid input; bytes that are not
/// UTF-8 are an encoding failure.
pub fn from_foreign(ptr: Option<&[u8]>) -> (r: Result<String, BoundaryError>)
    ensures
        text_of(r) == decoded(bytes_at(ptr)),
{
    let buf = match ptr {
        Some(buf) => buf,
        None => {
            return Err(BoundaryError::InvalidInput);
        },
    };
    let n = match find_nul(buf) {
        Some(n) => n,
        None => {
            return Err(BoundaryError::InvalidInput);
        },
    };
    let text = slice_subrange(buf, 0, n);
    assert(text@ == text_bytes(buf@));
    match utf8_str(text) {
        Some(s) => {
            proof {
                encode_utf8_decode_utf8(s@);
            }
            Ok(s.to_owned())
        },
        None => Err(BoundaryError::Encoding),
    }
}

/// Releases a string that came from [`to_foreign`]; a null pointer is left
/// alone. Says whether there was anything to release.
///
/// The string is taken by value: once released, it cannot be named again.
pub fn magika_string_free(ptr: Option<ForeignString>) -> (released: bool)
    ensures
        released == ptr is Some,
{
    match ptr {
        Some(_) => true,
        None => false,
    }
}

/// The encoding of a scalar value holds a NUL byte only if the value is zero.
proof fn lemma_scalar_has_nul(scalar: u32)
    ensures
        has_nul(encode_scalar(scalar)) <==> scalar == 0,
{
    let enc = encode_scalar(scalar);
    if has_width_1_encoding(scalar) {
        assert(((scalar & 0x7F) as u8 == 0u8) <==> scalar == 0) by (bit_vector)
            requires
                scalar <= 0x7F,
        ;
        assert(enc[0] == 0u8 <==> scalar == 0);
    } else {
        assert(forall|x: u8| 0xC0u8 | x != 0u8) by (bit_vector);
        assert(forall|x: u8| 0xE0u8 | x != 0u8) by (bit_vector);
        assert(forall|x: u8| 0xF0u8 | x != 0u8) by (bit_vector);
        assert(forall|x: u8| 0x80u8 | x != 0u8) by (bit_vector);
    }
}

/// The encoding of a text holds a NUL byte exactly if the text holds a NUL
/// character.
pub proof fn lemma_encodable_iff_nul_free(text: Seq<char>)
    ensures
        encodable(text) <==> nul_free(text),
    decreases text.len(),
{
    if text.len() > 0 {
        let head = encode_scalar(text[0] as u32);
        let rest = text.drop_first();
        let tail = encode_utf8(rest);
        let enc = encode_utf8(text);
        assert(enc == head + tail);
        char_is_scalar(text[0]);
        lemma_scalar_has_nul(text[0] as u32);
        lemma_encodable_iff_nul_free(rest);
        assert(text[0] == '\0' <==> text[0] as u32 == 0) by {
            char_u32_cast(text[0], text[0] as u32);
            char_u32_cast('\0', 0u32);
        }
        if has_nul(enc) {
            let k = choose|k: int| 0 <= k < enc.len() && enc[k] == 0u8;
            if k < head.len() {
                assert(head[k] == 0u8);
                assert(has_nul(head));
                assert(text[0] == '\0');
            } else {
                assert(tail[k - head.len()] == 0u8);
                let j = choose|j: int| 0 <= j < rest.len() && rest[j] == '\0';
                assert(text[j + 1] == '\0');
            }
        }
        if !nul_free(text) {
            let j = choose|j: int| 0 <= j < text.len() && text[j] == '\0';
            if j == 0 {
                let k = choose|k: int| 0 <= k < head.len() && head[k] == 0u8;
                assert(enc[k] == 0u8);
            } else {
                assert(rest[j - 1] == '\0');
                let k = choose|k: int| 0 <= k < tail.len() && tail[k] == 0u8;
                assert(enc[head.len() + k] == 0u8);
            }
        }
    }
}

/// Text that holds no NUL comes back unchanged from its foreign string.
pub proof fn lemma_round_trip(text: Seq<char>)
    requires
        encodable(text),
    ensures
        is_foreign(foreign(text)),
        decoded(Some(foreign(text))) == Ok::<Seq<char>, BoundaryError>(text),
{
    let enc = encode_utf8(text);
    let buf = foreign(text);
    assert(ends_at(buf, enc.len() as int));
    assert(buf[enc.len() as int] == 0u8);
    assert(text_bytes(buf) =~= enc);
    encode_utf8_valid_utf8(text);
    encode_utf8_decode_utf8(text);
}

} // verus!
