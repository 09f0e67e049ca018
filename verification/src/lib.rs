//! One voting member ("replica") of a sharded, threshold-signature-secured
//! replicated ledger for money transfers.
//!
//! A replica validates individual transfer requests against per-wallet
//! ledger state, threshold-signs them, and durably records the outcomes of
//! quorum-approved transfers. Decision operations are pure reads that return
//! an outcome; all state mutation goes through a single event-application
//! function, so live operation and recovery-by-replay can never diverge.

pub mod crypto;
pub mod encoding;
pub mod laws;
pub mod replica;
pub mod types;
pub mod wallet;

use vstd::prelude::*;

verus! {

/// Byte-for-byte equality of two byte strings (identities, keys, signatures).
pub fn bytes_eq(a: &Vec<u8>, b: &Vec<u8>) -> (r: bool)
    ensures
        r == (a@ == b@),
{
    if a.len() != b.len() {
        assert(a@ != b@) by {
            assert(a@.len() != b@.len());
        }
        return false;
    }
    let n = a.len();
    let mut i: usize = 0;
    while i < n
        invariant
            n == a@.len() == b@.len(),
            0 <= i <= n,
            forall|j: int| 0 <= j < i ==> a@[j] == b@[j],
        decreases n - i,
    {
        if a[i] != b[i] {
            return false;
        }
        i += 1;
    }
    assert(a@ =~= b@);
    true
}

/// An owned copy of a byte string, byte for byte.
pub fn clone_bytes(v: &Vec<u8>) -> (r: Vec<u8>)
    ensures
        r@ == v@,
{
    let mut r: Vec<u8> = Vec::new();
    let n = v.len();
    let mut i: usize = 0;
    while i < n
        invariant
            n == v@.len(),
            0 <= i <= n,
            r@ == v@.subrange(0, i as int),
        decreases n - i,
    {
        r.push(v[i]);
        assert(r@ =~= v@.subrange(0, i + 1 as int));
        i += 1;
    }
    assert(r@ =~= v@);
    r
}

} // verus!
