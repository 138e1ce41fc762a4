//! The variable-length integer encoding that the row format is built on.
//!
//! The encoding itself is the `vlen` crate's; the library only states what it
//! relies on: an encoding is between one and nine bytes long, and decoding a
//! buffer that starts with the encoding of a value gives that value back,
//! together with the encoding's length.

use vstd::prelude::*;

verus! {

/// The bytes that `vlen` produces for a `u64`.
pub uninterp spec fn vlen_encoding(value: u64) -> Seq<u8>;

/// What `vlen` decodes from the start of a buffer: the value and the number
/// of bytes it took, or nothing.
pub uninterp spec fn vlen_decoding(bytes: Seq<u8>) -> Option<(u64, usize)>;

/// Whether `prefix` is the start of `s`.
pub open spec fn starts_with<T>(s: Seq<T>, prefix: Seq<T>) -> bool {
    prefix.len() <= s.len() && s.subrange(0, prefix.len() as int) == prefix
}

/// Encodes `value` with `vlen::encode` into a scratch buffer large enough for
/// any `u64` and returns the encoded bytes. The contract claims that the bytes
/// are `vlen_encoding(value)` and that their count is between one and nine
/// (the crate documents that a `u64` never needs more than nine bytes and that
/// encoding into a buffer of at least that size succeeds).
#[verifier::external_body]
pub(crate) fn vlen_encode(value: u64) -> (r: Vec<u8>)
    ensures
        r@ == vlen_encoding(value),
        1 <= r@.len() <= 9,
{
    let mut buf = [0u8; 17];
    match vlen::encode(&mut buf[..], value) {
        Ok(n) => buf[..n].to_vec(),
        Err(_) => Vec::new(),
    }
}

/// Decodes one `u64` from the start of `bytes` with `vlen::decode`,
/// discarding the error. The contract claims that a decoded length is at
/// least one and at most the buffer's length (the decoder reads the length
/// announced by the first byte and fails when the buffer is shorter), and
/// that a buffer that starts with the encoding of `v` decodes to `v` and the
/// encoding's length (trailing bytes are ignored, as the crate documents).
#[verifier::external_body]
pub(crate) fn vlen_decode(bytes: &[u8]) -> (r: Option<(u64, usize)>)
    ensures
        r == vlen_decoding(bytes@),
        r matches Some((v, n)) ==> 1 <= n <= bytes@.len(),
        forall|v: u64| #[trigger] starts_with(bytes@, vlen_encoding(v))
            ==> r == Some((v, vlen_encoding(v).len() as usize)),
{
    vlen::decode::<u64>(bytes).ok()
}

} // verus!
