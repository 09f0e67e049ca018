//! The protocol's data: transfers, proofs, events, and outcomes.
//!
//! Identities, public keys and signatures are carried as their byte
//! encodings, so that the protocol logic is stated over plain values;
//! the cryptographic operations on them live in `crypto`.

use crate::clone_bytes;
use vstd::prelude::*;

verus! {

// ---------------------------------------------------------------------
// Transfers
// ---------------------------------------------------------------------

/// Identifier of a transfer: the sending wallet together with the
/// sender-local sequence number of the debit. Globally unique, and the
/// basis of credit idempotency.
pub struct TransferId {
    /// The sending wallet's public key bytes.
    pub actor: Vec<u8>,
    /// The sender-local, monotonically increasing debit counter.
    pub counter: u64,
}

pub ghost struct TransferIdV {
    pub actor: Seq<u8>,
    pub counter: u64,
}

impl View for TransferId {
    type V = TransferIdV;

    open spec fn view(&self) -> TransferIdV {
        TransferIdV { actor: self.actor@, counter: self.counter }
    }
}

impl Clone for TransferId {
    fn clone(&self) -> (r: Self)
        ensures
            r@ == self@,
    {
        TransferId { actor: clone_bytes(&self.actor), counter: self.counter }
    }
}

/// An immutable money transfer: who debits, who is credited, how much.
pub struct Transfer {
    /// The unique identifier: sender and sender-local counter.
    pub id: TransferId,
    /// The credited wallet's public key bytes.
    pub to: Vec<u8>,
    /// The amount, in the smallest unit of money.
    pub amount: u64,
}

pub ghost struct TransferV {
    pub id: TransferIdV,
    pub to: Seq<u8>,
    pub amount: u64,
}

impl View for Transfer {
    type V = TransferV;

    open spec fn view(&self) -> TransferV {
        TransferV { id: self.id@, to: self.to@, amount: self.amount }
    }
}

impl Clone for Transfer {
    fn clone(&self) -> (r: Self)
        ensures
            r@ == self@,
    {
        Transfer { id: self.id.clone(), to: clone_bytes(&self.to), amount: self.amount }
    }
}

/// A transfer plus the sender's own signature over its canonical encoding:
/// the proof that the sender authorized this specific transfer.
pub struct SignedTransfer {
    pub transfer: Transfer,
    /// The sender's signature over `encoding::encode_transfer(transfer)`.
    pub actor_signature: Vec<u8>,
}

pub ghost struct SignedTransferV {
    pub transfer: TransferV,
    pub actor_signature: Seq<u8>,
}

impl View for SignedTransfer {
    type V = SignedTransferV;

    open spec fn view(&self) -> SignedTransferV {
        SignedTransferV { transfer: self.transfer@, actor_signature: self.actor_signature@ }
    }
}

impl Clone for SignedTransfer {
    fn clone(&self) -> (r: Self)
        ensures
            r@ == self@,
    {
        SignedTransfer {
            transfer: self.transfer.clone(),
            actor_signature: clone_bytes(&self.actor_signature),
        }
    }
}

// ---------------------------------------------------------------------
// Group keys and signature shares
// ---------------------------------------------------------------------

/// A replica group's public key material: the serialized public key set of
/// the group's threshold scheme, and the 48-byte combined public key that
/// aggregated signatures verify against.
pub struct GroupKeys {
    /// The group's public key set, serialized.
    pub set_bytes: Vec<u8>,
    /// The bytes of the group's combined public key.
    pub key: Vec<u8>,
}

pub ghost struct GroupKeysV {
    pub set_bytes: Seq<u8>,
    pub key: Seq<u8>,
}

impl View for GroupKeys {
    type V = GroupKeysV;

    open spec fn view(&self) -> GroupKeysV {
        GroupKeysV { set_bytes: self.set_bytes@, key: self.key@ }
    }
}

impl Clone for GroupKeys {
    fn clone(&self) -> (r: Self)
        ensures
            r@ == self@,
    {
        GroupKeys { set_bytes: clone_bytes(&self.set_bytes), key: clone_bytes(&self.key) }
    }
}

/// One replica's partial signature, indexed by its key share's position in
/// the group's threshold scheme.
pub struct SignatureShare {
    /// The index of the signing key share within the group set.
    pub index: usize,
    /// The bytes of the partial signature.
    pub share: Vec<u8>,
}

pub ghost struct SignatureShareV {
    pub index: usize,
    pub share: Seq<u8>,
}

impl View for SignatureShare {
    type V = SignatureShareV;

    open spec fn view(&self) -> SignatureShareV {
        SignatureShareV { index: self.index, share: self.share@ }
    }
}


impl Clone for SignatureShare {
    fn clone(&self) -> (r: Self)
        ensures
            r@ == self@,
    {
        SignatureShare { index: self.index, share: clone_bytes(&self.share) }
    }
}

/// A signed transfer together with an aggregated signature produced by a
/// threshold of some replica group: the proof that a quorum agreed to the
/// debit. Self-identifying via the embedded signed transfer.
pub struct DebitAgreementProof {
    pub signed_transfer: SignedTransfer,
    /// The debiting group's aggregated signature over
    /// `encoding::encode_signed_transfer(signed_transfer)`.
    pub debiting_replicas_sig: Vec<u8>,
}

pub ghost struct DebitAgreementProofV {
    pub signed_transfer: SignedTransferV,
    pub debiting_replicas_sig: Seq<u8>,
}

impl View for DebitAgreementProof {
    type V = DebitAgreementProofV;

    open spec fn view(&self) -> DebitAgreementProofV {
        DebitAgreementProofV {
            signed_transfer: self.signed_transfer@,
            debiting_replicas_sig: self.debiting_replicas_sig@,
        }
    }
}

impl Clone for DebitAgreementProof {
    fn clone(&self) -> (r: Self)
        ensures
            r@ == self@,
    {
        DebitAgreementProof {
            signed_transfer: self.signed_transfer.clone(),
            debiting_replicas_sig: clone_bytes(&self.debiting_replicas_sig),
        }
    }
}

// ---------------------------------------------------------------------
// Events
// ---------------------------------------------------------------------

/// Phase 1 outcome: a signed transfer this replica validated, carrying the
/// replica's partial signature and the group's key set, the unit an actor
/// collects a quorum of to build a proof.
pub struct TransferValidated {
    pub signed_transfer: SignedTransfer,
    pub replica_signature: SignatureShare,
    pub replicas: GroupKeys,
}

pub ghost struct TransferValidatedV {
    pub signed_transfer: SignedTransferV,
    pub replica_signature: SignatureShareV,
    pub replicas: GroupKeysV,
}

impl View for TransferValidated {
    type V = TransferValidatedV;

    open spec fn view(&self) -> TransferValidatedV {
        TransferValidatedV {
            signed_transfer: self.signed_transfer@,
            replica_signature: self.replica_signature@,
            replicas: self.replicas@,
        }
    }
}


impl Clone for TransferValidated {
    fn clone(&self) -> (r: Self)
        ensures
            r@ == self@,
    {
        TransferValidated {
            signed_transfer: self.signed_transfer.clone(),
            replica_signature: self.replica_signature.clone(),
            replicas: self.replicas.clone(),
        }
    }
}

/// Phase 2 outcome: a debit agreement proof accepted and recorded at the
/// sending side.
pub struct TransferRegistered {
    pub debit_proof: DebitAgreementProof,
}

pub ghost struct TransferRegisteredV {
    pub debit_proof: DebitAgreementProofV,
}

impl View for TransferRegistered {
    type V = TransferRegisteredV;

    open spec fn view(&self) -> TransferRegisteredV {
        TransferRegisteredV { debit_proof: self.debit_proof@ }
    }
}


impl Clone for TransferRegistered {
    fn clone(&self) -> (r: Self)
        ensures
            r@ == self@,
    {
        TransferRegistered { debit_proof: self.debit_proof.clone() }
    }
}

/// Phase 3 outcome: a debit agreement proof accepted at the crediting side,
/// with the key that validated it and this replica's own partial signature
/// over the proof.
pub struct TransferPropagated {
    pub debit_proof: DebitAgreementProof,
    /// The bytes of whichever group public key validated the proof.
    pub debiting_replicas: Vec<u8>,
    /// This replica's partial signature over
    /// `encoding::encode_proof(debit_proof)`.
    pub crediting_replica_sig: SignatureShare,
}

pub ghost struct TransferPropagatedV {
    pub debit_proof: DebitAgreementProofV,
    pub debiting_replicas: Seq<u8>,
    pub crediting_replica_sig: SignatureShareV,
}

impl View for TransferPropagated {
    type V = TransferPropagatedV;

    open spec fn view(&self) -> TransferPropagatedV {
        TransferPropagatedV {
            debit_proof: self.debit_proof@,
            debiting_replicas: self.debiting_replicas@,
            crediting_replica_sig: self.crediting_replica_sig@,
        }
    }
}


impl Clone for TransferPropagated {
    fn clone(&self) -> (r: Self)
        ensures
            r@ == self@,
    {
        TransferPropagated {
            debit_proof: self.debit_proof.clone(),
            debiting_replicas: clone_bytes(&self.debiting_replicas),
            crediting_replica_sig: self.crediting_replica_sig.clone(),
        }
    }
}

/// Outcome of learning a new foreign group's key set, used for future
/// cross-shard credit verification.
pub struct KnownGroupAdded {
    pub group: GroupKeys,
}

pub ghost struct KnownGroupAddedV {
    pub group: GroupKeysV,
}

impl View for KnownGroupAdded {
    type V = KnownGroupAddedV;

    open spec fn view(&self) -> KnownGroupAddedV {
        KnownGroupAddedV { group: self.group@ }
    }
}

/// The exhaustive alphabet of state mutation: no other path changes a
/// replica's state.
pub enum ReplicaEvent {
    KnownGroupAdded(KnownGroupAdded),
    TransferValidated(TransferValidated),
    TransferRegistered(TransferRegistered),
    TransferPropagated(TransferPropagated),
}

pub ghost enum ReplicaEventV {
    KnownGroupAdded(KnownGroupAddedV),
    TransferValidated(TransferValidatedV),
    TransferRegistered(TransferRegisteredV),
    TransferPropagated(TransferPropagatedV),
}

impl View for ReplicaEvent {
    type V = ReplicaEventV;

    open spec fn view(&self) -> ReplicaEventV {
        match self {
            ReplicaEvent::KnownGroupAdded(e) => ReplicaEventV::KnownGroupAdded(e@),
            ReplicaEvent::TransferValidated(e) => ReplicaEventV::TransferValidated(e@),
            ReplicaEvent::TransferRegistered(e) => ReplicaEventV::TransferRegistered(e@),
            ReplicaEvent::TransferPropagated(e) => ReplicaEventV::TransferPropagated(e@),
        }
    }
}

// ---------------------------------------------------------------------
// Outcomes and errors
// ---------------------------------------------------------------------

/// Fatal protocol errors: the request is discarded entirely and no event is
/// produced.
#[derive(Clone, Copy, PartialEq, Eq, Structural, Debug)]
pub enum Error {
    /// Signature verification failed; always checked first within a phase.
    InvalidSignature,
    /// An unregistered wallet cannot debit.
    NoSuchSender,
    /// The amount exceeds the sender's registered balance.
    InsufficientBalance,
    /// The transfer's counter does not continue the pending-debit sequence.
    OutOfOrder,
    /// The operation is not allowed in this state, or an event was applied
    /// that its decision phase would not have produced.
    InvalidOperation,
    /// The exact group key set is already known.
    DataExists,
}

/// Soft rejections: a well-formed request that a business rule declines;
/// no event, and the caller may retry with corrected parameters.
#[derive(Clone, Copy, PartialEq, Eq, Structural, Debug)]
pub enum Rejection {
    /// Sender and recipient are the same wallet.
    SelfTransfer,
    /// Zero-value transfers are not sent.
    ZeroValue,
    /// The proof does not continue the sender ledger's debit sequence.
    NonSequential,
}

/// The non-fatal outcomes of a decision operation. Together with the fatal
/// `Error` channel, every decision returns exactly one of
/// {fatal error, rejection, no-change, success(event)}.
pub enum Outcome<T> {
    /// The request passed every check; the carried event may be applied.
    Success(T),
    /// A business rule declined the request.
    Rejected(Rejection),
    /// A fully idempotent duplicate: nothing to do, and not an error.
    NoChange,
}

/// Spec-level verdict of a decision operation, used to state the contracts
/// of the decision functions.
#[derive(PartialEq, Eq, Structural)]
pub enum Verdict {
    Accept,
    Reject(Rejection),
    NoChange,
    Fatal(Error),
}

} // verus!
