//! Canonical, deterministic byte encoding of signable payloads.
//!
//! Every replica of a group must encode a payload to exactly the same bytes
//! for partial signatures to combine and verify; the spec functions here fix
//! that encoding, and the executable encoders are proved to produce it.
//! Variable-length fields are length-prefixed; integers are little-endian.

use crate::types::{DebitAgreementProof, DebitAgreementProofV, SignedTransfer, SignedTransferV,
    Transfer, TransferV};
use vstd::prelude::*;

verus! {

/// The eight little-endian bytes of a 64-bit integer.
pub open spec fn spec_u64_le(x: u64) -> Seq<u8> {
    let r0 = x / 256;
    let r1 = r0 / 256;
    let r2 = r1 / 256;
    let r3 = r2 / 256;
    let r4 = r3 / 256;
    let r5 = r4 / 256;
    let r6 = r5 / 256;
    seq![
        (x % 256) as u8,
        (r0 % 256) as u8,
        (r1 % 256) as u8,
        (r2 % 256) as u8,
        (r3 % 256) as u8,
        (r4 % 256) as u8,
        (r5 % 256) as u8,
        (r6 % 256) as u8,
    ]
}

/// The canonical encoding of a transfer, the payload the sender signs.
pub open spec fn spec_encode_transfer(t: TransferV) -> Seq<u8> {
    spec_u64_le(t.id.actor.len() as u64) + t.id.actor + spec_u64_le(t.id.counter) + spec_u64_le(
        t.to.len() as u64,
    ) + t.to + spec_u64_le(t.amount)
}

/// The canonical encoding of a signed transfer, the payload replicas sign
/// in phase 1 and verify aggregated proofs against.
pub open spec fn spec_encode_signed_transfer(st: SignedTransferV) -> Seq<u8> {
    spec_encode_transfer(st.transfer) + spec_u64_le(st.actor_signature.len() as u64)
        + st.actor_signature
}

/// The canonical encoding of a debit agreement proof, the payload a
/// crediting replica signs in phase 3.
pub open spec fn spec_encode_proof(p: DebitAgreementProofV) -> Seq<u8> {
    spec_encode_signed_transfer(p.signed_transfer) + spec_u64_le(
        p.debiting_replicas_sig.len() as u64,
    ) + p.debiting_replicas_sig
}

/// Appends the eight little-endian bytes of `x`.
pub fn push_u64_le(out: &mut Vec<u8>, x: u64)
    ensures
        final(out)@ == old(out)@ + spec_u64_le(x),
{
    let r0 = x / 256;
    let r1 = r0 / 256;
    let r2 = r1 / 256;
    let r3 = r2 / 256;
    let r4 = r3 / 256;
    let r5 = r4 / 256;
    let r6 = r5 / 256;
    out.push((x % 256) as u8);
    out.push((r0 % 256) as u8);
    out.push((r1 % 256) as u8);
    out.push((r2 % 256) as u8);
    out.push((r3 % 256) as u8);
    out.push((r4 % 256) as u8);
    out.push((r5 % 256) as u8);
    out.push((r6 % 256) as u8);
    assert(out@ =~= old(out)@ + spec_u64_le(x));
}

/// Appends a copy of `src`.
pub fn push_bytes(out: &mut Vec<u8>, src: &Vec<u8>)
    ensures
        final(out)@ == old(out)@ + src@,
{
    let n = src.len();
    let mut i: usize = 0;
    while i < n
        invariant
            n == src@.len(),
            0 <= i <= n,
            out@ == old(out)@ + src@.subrange(0, i as int),
        decreases n - i,
    {
        out.push(src[i]);
        assert(out@ =~= old(out)@ + src@.subrange(0, i + 1 as int));
        i += 1;
    }
    assert(out@ =~= old(out)@ + src@);
}

/// The canonical bytes of a transfer.
pub fn encode_transfer(t: &Transfer) -> (r: Vec<u8>)
    ensures
        r@ == spec_encode_transfer(t@),
{
    let mut out: Vec<u8> = Vec::new();
    push_u64_le(&mut out, t.id.actor.len() as u64);
    push_bytes(&mut out, &t.id.actor);
    push_u64_le(&mut out, t.id.counter);
    push_u64_le(&mut out, t.to.len() as u64);
    push_bytes(&mut out, &t.to);
    push_u64_le(&mut out, t.amount);
    assert(out@ =~= spec_encode_transfer(t@));
    out
}

/// The canonical bytes of a signed transfer.
pub fn encode_signed_transfer(st: &SignedTransfer) -> (r: Vec<u8>)
    ensures
        r@ == spec_encode_signed_transfer(st@),
{
    let mut out = encode_transfer(&st.transfer);
    push_u64_le(&mut out, st.actor_signature.len() as u64);
    push_bytes(&mut out, &st.actor_signature);
    assert(out@ =~= spec_encode_signed_transfer(st@));
    out
}

/// The canonical bytes of a debit agreement proof.
pub fn encode_proof(p: &DebitAgreementProof) -> (r: Vec<u8>)
    ensures
        r@ == spec_encode_proof(p@),
{
    let mut out = encode_signed_transfer(&p.signed_transfer);
    push_u64_le(&mut out, p.debiting_replicas_sig.len() as u64);
    push_bytes(&mut out, &p.debiting_replicas_sig);
    assert(out@ =~= spec_encode_proof(p@));
    out
}

} // verus!
