//! MD5 digests, as the projector protocols use them.

use vstd::prelude::*;
use vstd::string::*;
use vstd::utf8::*;

verus! {

/// The MD5 digest of a byte string as the `md5` crate writes it in hexadecimal.
pub uninterp spec fn md5_hex_of(bytes: Seq<u8>) -> Seq<char>;

pub open spec fn is_small_hex(c: char) -> bool {
    '0' <= c <= '9' || 'a' <= c <= 'f'
}

/// `md5::compute`, written by the digest's `LowerHex`: two hexadecimal digits for each of its
/// sixteen bytes. Which digits they are is not written out.
#[verifier::external_body]
pub(crate) fn md5_hex(s: &str) -> (r: String)
    ensures
        r@ == md5_hex_of(encode_utf8(s@)),
        r@.len() == 32,
        forall|i: int| 0 <= i < r@.len() ==> is_small_hex(#[trigger] r@[i]),
{
    format!("{:x}", md5::compute(s.as_bytes()))
}

} // verus!
