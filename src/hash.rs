use scrypt::{scrypt, Params};
use vstd::prelude::*;

use crate::num::{be_bytes, Num};

verus! {

/// What scrypt derives from `data` with this library's fixed parameters and
/// empty salt, as an output of `len` bytes.
pub uninterp spec fn scrypt_key(data: Seq<u8>, len: nat) -> Seq<u8>;

/// The 32-byte digest of the value `n`.
pub open spec fn digest_of(n: u128) -> Seq<u8> {
    scrypt_key(be_bytes(n), 32)
}

/// Relies on scrypt::scrypt (with Params::new(6, 64, 1, 32), which these
/// parameters pass, and an empty salt): it fills `out` with the derived key of
/// `data`, and fails only on an empty or oversized output.
#[verifier::external_body]
pub fn hash(data: &[u8], out: &mut [u8])
    requires
        old(out)@.len() > 0,
        old(out)@.len() / 32 <= 0xffff_ffff,
    ensures
        final(out)@ == scrypt_key(data@, old(out)@.len() as nat),
{
    let params = Params::new(6, 64, 1, 32).unwrap();
    scrypt(data, &[], &params, out).unwrap();
}

/// The digest of the big-endian bytes of `num`.
pub fn hash_num(num: Num) -> (r: [u8; 32])
    ensures
        r@ == digest_of(num@),
{
    let bnum = num.bytes();
    let mut out: [u8; 32] = [0; 32];
    hash(&bnum, &mut out);
    out
}

} // verus!
