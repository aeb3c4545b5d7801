//! The relay's node-key seed as it sits in the secret store: 32 bytes
//! written as lowercase hex. Reading it back decodes the hex (through the
//! `hex` crate) and insists on exactly 32 bytes.

use vstd::prelude::*;
use vstd::string::StringSliceAdditionalSpecFns;
use vstd::utf8::{encode_utf8, is_ascii_chars, is_ascii_chars_encode_utf8};

verus! {

/// Why a hex string did not decode (the `hex` crate's error, variant for
/// variant).
#[derive(Clone, Copy, Debug, PartialEq, Eq, Structural)]
pub enum HexError {
    /// A byte that is no hex digit, as a `char`, at this byte position.
    InvalidHexCharacter { c: char, index: usize },
    /// An odd number of digits.
    OddLength,
    /// A length that does not fit the fixed-size target.
    InvalidStringLength,
}

/// The value of a hex digit (either case), if `b` is one.
pub open spec fn hex_digit_value(b: u8) -> Option<u8> {
    if 65 <= b <= 70 {
        Some((b - 65 + 10) as u8)
    } else if 97 <= b <= 102 {
        Some((b - 97 + 10) as u8)
    } else if 48 <= b <= 57 {
        Some((b - 48) as u8)
    } else {
        None
    }
}

/// The first `k` bytes are all hex digits.
pub open spec fn hex_digits_upto(bytes: Seq<u8>, k: int) -> bool {
    forall|i: int| 0 <= i < k ==> (#[trigger] hex_digit_value(bytes[i])) is Some
}

/// The bytes of digit pairs: high digit times sixteen plus low digit.
pub open spec fn hex_pairs(bytes: Seq<u8>) -> Seq<u8> {
    Seq::new(
        (bytes.len() / 2) as nat,
        |i: int| (hex_digit_value(bytes[2 * i])->0 * 16 + hex_digit_value(bytes[2 * i + 1])->0) as u8,
    )
}

/// What decoding `bytes` as hex gives: an odd length is refused first;
/// otherwise the first byte that is no hex digit is reported, with its
/// position; otherwise the digit pairs.
pub open spec fn hex_decode_spec(bytes: Seq<u8>) -> Result<Seq<u8>, HexError> {
    if bytes.len() % 2 != 0 {
        Err(HexError::OddLength)
    } else if hex_digits_upto(bytes, bytes.len() as int) {
        Ok(hex_pairs(bytes))
    } else {
        let i = choose|i: int|
            0 <= i < bytes.len() && hex_digit_value(bytes[i]) is None && hex_digits_upto(bytes, i);
        Err(HexError::InvalidHexCharacter { c: bytes[i] as char, index: i as usize })
    }
}

/// The lowercase hex digit for `n < 16`.
pub open spec fn hex_lower_digit(n: int) -> char {
    if n < 10 {
        (48 + n) as char
    } else {
        (87 + n) as char
    }
}

/// `bytes` written as lowercase hex, two digits per byte, high digit first.
pub open spec fn hex_encoded(bytes: Seq<u8>) -> Seq<char> {
    Seq::new(
        2 * bytes.len(),
        |i: int|
            if i % 2 == 0 {
                hex_lower_digit(bytes[i / 2] as int / 16)
            } else {
                hex_lower_digit(bytes[i / 2] as int % 16)
            },
    )
}

/// `hex::decode`: per the crate's source, an odd-length input fails with
/// `OddLength`; otherwise the digit pairs are decoded in order and the
/// first byte that is no hex digit (either case) fails with
/// `InvalidHexCharacter` carrying that byte as a `char` and its position;
/// otherwise each pair gives `high * 16 + low`. The contract claims exactly
/// `hex_decode_spec` of the string's bytes; the error is carried over
/// variant for variant.
#[verifier::external_body]
fn hex_decode(s: &str) -> (r: Result<Vec<u8>, HexError>)
    ensures
        match (r, hex_decode_spec(s.spec_bytes())) {
            (Ok(v), Ok(w)) => v@ == w,
            (Err(e), Err(f)) => e == f,
            _ => false,
        },
{
    match hex::decode(s) {
        Ok(v) => Ok(v),
        Err(hex::FromHexError::InvalidHexCharacter { c, index }) => Err(
            HexError::InvalidHexCharacter { c, index },
        ),
        Err(hex::FromHexError::OddLength) => Err(HexError::OddLength),
        Err(hex::FromHexError::InvalidStringLength) => Err(HexError::InvalidStringLength),
    }
}

/// `hex::encode`: per the crate's source, each byte becomes two characters
/// of `0123456789abcdef`, the high four bits first. The contract claims
/// exactly `hex_encoded` of the bytes.
#[verifier::external_body]
fn hex_encode(bytes: &[u8]) -> (r: String)
    ensures
        r@ == hex_encoded(bytes@),
{
    hex::encode(bytes)
}

/// Why a stored seed could not be read back.
#[derive(Clone, Copy, Debug, PartialEq, Eq, Structural)]
pub enum SeedError {
    /// The stored text is no valid hex.
    InvalidHex(HexError),
    /// The hex decodes, but not to 32 bytes.
    WrongLength,
}

/// Reads a seed back from its stored hex text: the decoded bytes when they
/// are exactly 32, else why not.
pub fn decode_seed_hex(seed_hex: &str) -> (r: Result<[u8; 32], SeedError>)
    ensures
        match hex_decode_spec(seed_hex.spec_bytes()) {
            Err(e) => r == Err::<[u8; 32], SeedError>(SeedError::InvalidHex(e)),
            Ok(b) => if b.len() == 32 {
                r matches Ok(a) && a@ == b
            } else {
                r == Err::<[u8; 32], SeedError>(SeedError::WrongLength)
            },
        },
{
    let bytes = match hex_decode(seed_hex) {
        Ok(v) => v,
        Err(e) => {
            return Err(SeedError::InvalidHex(e));
        },
    };
    if bytes.len() != 32 {
        return Err(SeedError::WrongLength);
    }
    let mut seed: [u8; 32] = [0u8; 32];
    let mut i: usize = 0;
    while i < 32
        invariant
            bytes@.len() == 32,
            i <= 32,
            forall|j: int| 0 <= j < i ==> seed@[j] == bytes@[j],
        decreases 32 - i,
    {
        seed[i] = bytes[i];
        i = i + 1;
    }
    assert(seed@ =~= bytes@);
    Ok(seed)
}

/// Writes a seed as the lowercase hex text the store keeps.
pub fn encode_seed_hex(seed: &[u8; 32]) -> (r: String)
    ensures
        r@ == hex_encoded(seed@),
{
    hex_encode(seed.as_slice())
}

/// How a seed reads back from stored hex text `bytes` (its UTF-8 bytes).
pub open spec fn seed_decoding(bytes: Seq<u8>) -> Result<Seq<u8>, SeedError> {
    match hex_decode_spec(bytes) {
        Err(e) => Err(SeedError::InvalidHex(e)),
        Ok(b) => if b.len() == 32 {
            Ok(b)
        } else {
            Err(SeedError::WrongLength)
        },
    }
}

/// Where the node key's seed comes from.
#[derive(Clone, Copy, Debug)]
pub enum SeedSource {
    /// The seed read back from the store.
    Stored([u8; 32]),
    /// Nothing is stored: a new seed is to be made (and stored).
    Fresh,
}

/// Decides the seed from what the secret store holds: a stored seed is
/// read back (and a bad one is an error, never replaced); an empty store
/// asks for a fresh seed.
pub fn seed_source(stored: &Option<String>) -> (r: Result<SeedSource, SeedError>)
    ensures
        stored is None ==> r matches Ok(SeedSource::Fresh),
        stored matches Some(h) ==> match seed_decoding(encode_utf8(h@)) {
            Ok(b) => r matches Ok(SeedSource::Stored(a)) && a@ == b,
            Err(e) => r == Err::<SeedSource, SeedError>(e),
        },
{
    match stored {
        None => Ok(SeedSource::Fresh),
        Some(h) => match decode_seed_hex(h.as_str()) {
            Ok(seed) => Ok(SeedSource::Stored(seed)),
            Err(e) => Err(e),
        },
    }
}

/// A lowercase hex digit reads back as its value.
proof fn lemma_digit_round_trip(n: int)
    requires
        0 <= n < 16,
    ensures
        hex_digit_value(hex_lower_digit(n) as u8) == Some(n as u8),
{
}

/// Law: hex text written by `encode_seed_hex` (or any lowercase hex
/// encoding) decodes back to exactly the bytes it was written from.
pub proof fn law_hex_round_trip(bytes: Seq<u8>)
    ensures
        hex_decode_spec(encode_utf8(hex_encoded(bytes))) == Ok::<Seq<u8>, HexError>(bytes),
{
    let chars = hex_encoded(bytes);
    assert forall|i: int| 0 <= i < chars.len() implies '\0' <= #[trigger] chars[i] <= '\u{7f}' by {
        if i % 2 == 0 {
            lemma_digit_round_trip(bytes[i / 2] as int / 16);
        } else {
            lemma_digit_round_trip(bytes[i / 2] as int % 16);
        }
    }
    assert(is_ascii_chars(chars));
    is_ascii_chars_encode_utf8(chars);
    let enc = encode_utf8(chars);
    assert(enc.len() % 2 == 0);
    assert forall|i: int| 0 <= i < enc.len() implies (#[trigger] hex_digit_value(enc[i])) is Some by {
        assert(chars[i] as u8 == enc[i]);
        if i % 2 == 0 {
            lemma_digit_round_trip(bytes[i / 2] as int / 16);
        } else {
            lemma_digit_round_trip(bytes[i / 2] as int % 16);
        }
    }
    assert(hex_digits_upto(enc, enc.len() as int));
    assert forall|i: int| 0 <= i < bytes.len() implies #[trigger] hex_pairs(enc)[i] == bytes[i] by {
        assert(chars[2 * i] as u8 == enc[2 * i]);
        assert(chars[2 * i + 1] as u8 == enc[2 * i + 1]);
        assert((2 * i) / 2 == i);
        assert((2 * i + 1) / 2 == i);
        assert((2 * i) % 2 == 0);
        assert((2 * i + 1) % 2 == 1);
        lemma_digit_round_trip(bytes[i] as int / 16);
        lemma_digit_round_trip(bytes[i] as int % 16);
    }
    assert(hex_pairs(enc) =~= bytes);
}

} // verus!
