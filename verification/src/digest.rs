//! Content addressing: SHA-1 digest of a canonical payload, rendered as a
//! 40-character lowercase hex string.

use sha1::Digest;
use vstd::prelude::*;

verus! {

/// The SHA-1 digest of a byte sequence. Left uninterpreted: the digest is a
/// function of the input bytes alone, and nothing here depends on its value.
pub uninterp spec fn sha1_of(data: Seq<u8>) -> Seq<u8>;

/// Relies on `sha1::Sha1` through `digest::Digest::digest`: the one-shot
/// SHA-1 computation, returning a 20-byte digest determined by the input
/// bytes alone.
#[verifier::external_body]
fn sha1_digest(data: &[u8]) -> (r: Vec<u8>)
    ensures
        r@ == sha1_of(data@),
        r@.len() == 20,
{
    sha1::Sha1::digest(data).to_vec()
}

/// Relies on `String::from_utf8`: bytes below 0x80 are valid UTF-8 and decode
/// to the characters with the same code points.
#[verifier::external_body]
fn ascii_string(v: Vec<u8>) -> (r: String)
    requires
        forall|i: int| 0 <= i < v@.len() ==> v@[i] < 0x80,
    ensures
        r@ == v@.map_values(|b: u8| b as char),
{
    match String::from_utf8(v) {
        Ok(s) => s,
        Err(_) => String::new(),
    }
}

/// The ASCII code of the lowercase hex digit for `n` (meaningful for n < 16).
pub open spec fn hex_digit(n: u8) -> u8 {
    if n < 10 {
        (0x30 + n) as u8
    } else {
        (0x57 + n) as u8
    }
}

/// The lowercase hex rendering of a byte sequence, as ASCII codes:
/// two digits per byte, high nibble first.
pub open spec fn hex_bytes_of(data: Seq<u8>) -> Seq<u8> {
    Seq::new(data.len() * 2, |i: int| {
        if i % 2 == 0 {
            hex_digit(data[i / 2] / 16)
        } else {
            hex_digit(data[i / 2] % 16)
        }
    })
}

/// The lowercase hex rendering of a byte sequence, as characters.
pub open spec fn hex_chars_of(data: Seq<u8>) -> Seq<char> {
    hex_bytes_of(data).map_values(|b: u8| b as char)
}

/// The content address of a canonical payload: the lowercase hex rendering
/// of its SHA-1 digest.
pub open spec fn id_of(payload: Seq<u8>) -> Seq<char> {
    hex_chars_of(sha1_of(payload))
}

pub(crate) fn hex_digit_exec(n: u8) -> (r: u8)
    requires
        n < 16,
    ensures
        r == hex_digit(n),
        r < 0x80,
{
    if n < 10 {
        0x30 + n
    } else {
        0x57 + n
    }
}

fn hex_string(data: &Vec<u8>) -> (r: String)
    ensures
        r@ == hex_chars_of(data@),
{
    let mut out: Vec<u8> = Vec::new();
    let mut i: usize = 0;
    while i < data.len()
        invariant
            i <= data@.len(),
            out@ == hex_bytes_of(data@.take(i as int)),
            forall|j: int| 0 <= j < out@.len() ==> out@[j] < 0x80,
        decreases data@.len() - i,
    {
        let b = data[i];
        out.push(hex_digit_exec(b / 16));
        out.push(hex_digit_exec(b % 16));
        i = i + 1;
        proof {
            assert(out@ =~= hex_bytes_of(data@.take(i as int)));
        }
    }
    proof {
        assert(data@.take(data@.len() as int) =~= data@);
    }
    let s = ascii_string(out);
    proof {
        assert(s@ =~= hex_chars_of(data@));
    }
    s
}

/// The content address of `payload`: lowercase hex of its SHA-1 digest,
/// forty characters.
pub fn content_id(payload: &Vec<u8>) -> (r: String)
    ensures
        r@ == id_of(payload@),
        r@.len() == 40,
{
    let digest = sha1_digest(payload.as_slice());
    hex_string(&digest)
}

} // verus!
