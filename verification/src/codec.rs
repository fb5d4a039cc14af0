//! Base64 text and content hashes.
use base64::Engine;
use vstd::prelude::*;

verus! {

/// The Base64 alphabets without padding.
#[derive(Clone, Copy, Debug, PartialEq, Eq, Structural)]
pub enum Alphabet {
    /// `A-Z a-z 0-9 + /`
    Standard,
    /// `A-Z a-z 0-9 - _`
    UrlSafe,
}

/// The character of a 6-bit value in an alphabet.
pub open spec fn b64_char(alphabet: Alphabet, v: int) -> char {
    if v < 26 {
        (('A' as int) + v) as char
    } else if v < 52 {
        (('a' as int) + v - 26) as char
    } else if v < 62 {
        (('0' as int) + v - 52) as char
    } else if v == 62 {
        if alphabet == Alphabet::UrlSafe {
            '-'
        } else {
            '+'
        }
    } else {
        if alphabet == Alphabet::UrlSafe {
            '_'
        } else {
            '/'
        }
    }
}

/// Base64 of bytes, without padding: each group of three bytes gives four
/// characters, a final group of one or two bytes gives two or three.
pub open spec fn base64_no_pad(b: Seq<u8>, alphabet: Alphabet) -> Seq<char>
    decreases b.len(),
{
    let x = b[0] as int;
    let y = b[1] as int;
    let z = b[2] as int;
    if b.len() == 0 {
        Seq::<char>::empty()
    } else if b.len() == 1 {
        seq![b64_char(alphabet, x / 4), b64_char(alphabet, (x % 4) * 16)]
    } else if b.len() == 2 {
        seq![b64_char(alphabet, x / 4), b64_char(alphabet, (x % 4) * 16 + y / 16), b64_char(alphabet, (y % 16) * 4)]
    } else {
        seq![
            b64_char(alphabet, x / 4),
            b64_char(alphabet, (x % 4) * 16 + y / 16),
            b64_char(alphabet, (y % 16) * 4 + z / 64),
            b64_char(alphabet, z % 64),
        ] + base64_no_pad(b.skip(3), alphabet)
    }
}

/// `base64::Engine::encode` with `URL_SAFE_NO_PAD` or `STANDARD_NO_PAD`. Believed: the
/// result is `base64_no_pad` of the bytes in that alphabet (RFC 4648 without padding).
#[verifier::external_body]
pub(crate) fn base64_encode(bytes: &[u8], alphabet: Alphabet) -> (r: String)
    ensures
        r@ == base64_no_pad(bytes@, alphabet),
{
    match alphabet {
        Alphabet::UrlSafe => base64::engine::general_purpose::URL_SAFE_NO_PAD.encode(bytes),
        Alphabet::Standard => base64::engine::general_purpose::STANDARD_NO_PAD.encode(bytes),
    }
}

/// A name for the BLAKE3 hash (32 bytes) of some bytes.
pub uninterp spec fn blake3_digest(bytes: Seq<u8>) -> Seq<u8>;

/// `blake3::hash`. Believed: the result is `blake3_digest` of the bytes, and is 32
/// bytes long.
#[verifier::external_body]
pub(crate) fn blake3_hash(bytes: &[u8]) -> (r: Vec<u8>)
    ensures
        r@ == blake3_digest(bytes@),
        r@.len() == 32,
{
    blake3::hash(bytes).as_bytes().to_vec()
}

} // verus!
