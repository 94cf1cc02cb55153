use vstd::prelude::*;
use blake2::digest::{Update, VariableOutput};
use blake2::Blake2bVar;

verus! {

/// The number of bytes kept of a module identity's digest.
pub const DIGEST_LEN: usize = 4;

/// The BLAKE2b digest, with an output size of four bytes, of the UTF-8 bytes of a text.
pub uninterp spec fn blake2b_32_of(s: Seq<char>) -> Seq<u8>;

/// A lowercase hexadecimal digit.
pub open spec fn hex_digit(n: int) -> char {
    seq!['0', '1', '2', '3', '4', '5', '6', '7', '8', '9', 'a', 'b', 'c', 'd', 'e', 'f'][n]
}

/// Two lowercase hexadecimal digits for each byte, high half first.
pub open spec fn hex_spec(b: Seq<u8>) -> Seq<char> {
    Seq::new(
        2 * b.len(),
        |i: int|
            if i % 2 == 0 {
                hex_digit(b[i / 2] as int / 16)
            } else {
                hex_digit(b[i / 2] as int % 16)
            },
    )
}

/// Relies on blake2's `Blake2bVar` with an output size of four bytes (a size
/// it accepts, so neither `new` nor `finalize_variable` fails): the digest of
/// the UTF-8 bytes of `s`, which depends on `s` alone.
#[verifier::external_body]
pub(crate) fn blake2b_32(s: &str) -> (r: Vec<u8>)
    ensures
        r@ == blake2b_32_of(s@),
        r@.len() == DIGEST_LEN,
{
    let mut hasher = Blake2bVar::new(DIGEST_LEN).unwrap();
    hasher.update(s.as_bytes());
    let mut buf = [0u8; DIGEST_LEN];
    hasher.finalize_variable(&mut buf).unwrap();
    buf.to_vec()
}

/// Relies on `hex::encode`: two lowercase digits for each byte, in order.
#[verifier::external_body]
pub(crate) fn to_hex(b: &Vec<u8>) -> (r: String)
    ensures
        r@ == hex_spec(b@),
{
    hex::encode(b)
}

/// The short identifier written for a digest: its bytes in lowercase hexadecimal.
pub fn digest_to_id(digest: &Vec<u8>) -> (r: String)
    ensures
        r@ == hex_spec(digest@),
{
    to_hex(digest)
}

} // verus!
