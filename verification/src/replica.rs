//! The replica: per-transfer protocol decisions and event application.
//!
//! Decision operations (`validate`, `register`, `receive_propagated`,
//! `genesis`, `add_known_group`) are pure reads over the current state and
//! return an outcome without mutating anything; `apply` is the sole mutator
//! and handles exactly the event alphabet. The decision each operation takes
//! is fixed by a spec-level verdict function over the state's view, and the
//! executable code is proved to return exactly that verdict.

use crate::bytes_eq;
use crate::clone_bytes;
use crate::crypto::{public_key_share_bytes, sig_verifies, sign_share, verify_sig};
use crate::encoding::{encode_proof, encode_signed_transfer, encode_transfer,
    spec_encode_signed_transfer, spec_encode_transfer};
use crate::types::{DebitAgreementProof, DebitAgreementProofV, Error, GroupKeys, GroupKeysV,
    KnownGroupAdded, Outcome, Rejection, ReplicaEvent, ReplicaEventV, SignatureShare,
    SignedTransfer, SignedTransferV, Transfer, TransferPropagated, TransferRegistered,
    TransferValidated, TransferV, Verdict};
use crate::wallet::{credit_ok, debit_ok, wallet_balance, wallet_contains, wallet_wf, with_credit,
    with_debit, Wallet, WalletV};
use vstd::pervasive::VecAdditionalExecFns;
use vstd::prelude::*;

verus! {

// ---------------------------------------------------------------------
// The state's view
// ---------------------------------------------------------------------

/// One wallet's pending-debit record: the counter of the last validated, not
/// yet registered debit.
pub struct PendingDebit {
    pub actor: Vec<u8>,
    pub counter: u64,
}

pub ghost struct PendingV {
    pub actor: Seq<u8>,
    pub counter: u64,
}

impl View for PendingDebit {
    type V = PendingV;

    open spec fn view(&self) -> PendingV {
        PendingV { actor: self.actor@, counter: self.counter }
    }
}

/// The view of a replica's state: everything the protocol's decisions and
/// mutations are stated over. The secret key share never appears in it.
pub ghost struct ReplicaV {
    pub key_index: usize,
    pub peer_replicas: GroupKeysV,
    pub other_groups: Seq<GroupKeysV>,
    pub wallets: Seq<WalletV>,
    pub pending_debits: Seq<PendingV>,
}

pub open spec fn wallet_views(ws: Seq<Wallet>) -> Seq<WalletV> {
    ws.map_values(|w: Wallet| w@)
}

pub open spec fn group_views(gs: Seq<GroupKeys>) -> Seq<GroupKeysV> {
    gs.map_values(|g: GroupKeys| g@)
}

pub open spec fn pending_views(ps: Seq<PendingDebit>) -> Seq<PendingV> {
    ps.map_values(|p: PendingDebit| p@)
}

pub open spec fn event_views(es: Seq<ReplicaEvent>) -> Seq<ReplicaEventV> {
    es.map_values(|e: ReplicaEvent| e@)
}

pub open spec fn opt_bytes_view(o: Option<Vec<u8>>) -> Option<Seq<u8>> {
    match o {
        Some(v) => Some(v@),
        None => None,
    }
}

// ---------------------------------------------------------------------
// Lookups over the view
// ---------------------------------------------------------------------

pub open spec fn has_wallet(ws: Seq<WalletV>, id: Seq<u8>) -> bool {
    exists|i: int| 0 <= i < ws.len() && (#[trigger] ws[i]).id == id
}

pub open spec fn wallet_idx(ws: Seq<WalletV>, id: Seq<u8>) -> int {
    choose|i: int| 0 <= i < ws.len() && (#[trigger] ws[i]).id == id
}

pub open spec fn has_pending(ps: Seq<PendingV>, actor: Seq<u8>) -> bool {
    exists|i: int| 0 <= i < ps.len() && (#[trigger] ps[i]).actor == actor
}

/// The ledger of `id`; meaningful when one exists.
pub open spec fn spec_wallet(ws: Seq<WalletV>, id: Seq<u8>) -> WalletV
    recommends
        has_wallet(ws, id),
{
    ws[wallet_idx(ws, id)]
}

pub open spec fn pending_idx(ps: Seq<PendingV>, actor: Seq<u8>) -> int {
    choose|i: int| 0 <= i < ps.len() && (#[trigger] ps[i]).actor == actor
}

/// The recorded pending-debit counter of `actor`, if any.
pub open spec fn spec_pending(ps: Seq<PendingV>, actor: Seq<u8>) -> Option<u64> {
    if has_pending(ps, actor) {
        Some(ps[pending_idx(ps, actor)].counter)
    } else {
        None
    }
}

pub open spec fn group_known(gs: Seq<GroupKeysV>, g: GroupKeysV) -> bool {
    exists|i: int| 0 <= i < gs.len() && gs[i] == g
}

/// No two ledgers for the same wallet, and no two pending entries for the
/// same wallet; every ledger well formed.
pub open spec fn replica_state_wf(rv: ReplicaV) -> bool {
    &&& forall|i: int| 0 <= i < rv.wallets.len() ==> wallet_wf(#[trigger] rv.wallets[i])
    &&& forall|i: int, j: int|
        0 <= i < j < rv.wallets.len() ==> (#[trigger] rv.wallets[i]).id != (
        #[trigger] rv.wallets[j]).id
    &&& forall|i: int, j: int|
        0 <= i < j < rv.pending_debits.len() ==> (#[trigger] rv.pending_debits[i]).actor != (
        #[trigger] rv.pending_debits[j]).actor
}

// ---------------------------------------------------------------------
// Decision verdicts
// ---------------------------------------------------------------------

/// Phase 1: the ordered checks of a debit validation. The sender's own
/// signature is always verified first, so that nothing is learned from a
/// request whose signature is invalid.
pub open spec fn validate_verdict(rv: ReplicaV, st: SignedTransferV) -> Verdict {
    let t = st.transfer;
    if !sig_verifies(t.id.actor, st.actor_signature, spec_encode_transfer(t)) {
        Verdict::Fatal(Error::InvalidSignature)
    } else if t.id.actor == t.to {
        Verdict::Reject(Rejection::SelfTransfer)
    } else if t.amount == 0 {
        Verdict::Reject(Rejection::ZeroValue)
    } else if !has_wallet(rv.wallets, t.id.actor) {
        Verdict::Fatal(Error::NoSuchSender)
    } else if !(match spec_pending(rv.pending_debits, t.id.actor) {
        None => t.id.counter == 0,
        Some(c) => t.id.counter == c + 1,
    }) {
        Verdict::Fatal(Error::OutOfOrder)
    } else if t.amount > wallet_balance(spec_wallet(rv.wallets, t.id.actor)) {
        Verdict::Fatal(Error::InsufficientBalance)
    } else {
        Verdict::Accept
    }
}

/// The unauthenticated issuance entry point used to create test money: only
/// a literal self-transfer is declined.
pub open spec fn test_validate_verdict(st: SignedTransferV) -> Verdict {
    if st.transfer.id.actor == st.transfer.to {
        Verdict::Reject(Rejection::SelfTransfer)
    } else {
        Verdict::Accept
    }
}

/// Phase 2: the aggregated signature must be the group's own, or be
/// recognized by the caller-supplied past-epoch check; the sender's ledger
/// must exist; and the proof must continue that ledger's own debit
/// sequence exactly.
pub open spec fn register_verdict(
    rv: ReplicaV,
    p: DebitAgreementProofV,
    past_key_check: bool,
) -> Verdict {
    let t = p.signed_transfer.transfer;
    let msg = spec_encode_signed_transfer(p.signed_transfer);
    if !(sig_verifies(rv.peer_replicas.key, p.debiting_replicas_sig, msg) || past_key_check) {
        Verdict::Fatal(Error::InvalidSignature)
    } else if !has_wallet(rv.wallets, t.id.actor) {
        Verdict::Fatal(Error::NoSuchSender)
    } else if t.id.counter != spec_wallet(rv.wallets, t.id.actor).debits.len() {
        Verdict::Reject(Rejection::NonSequential)
    } else {
        Verdict::Accept
    }
}

/// The key of the first known foreign group whose combined public key
/// verifies the signature, if any.
pub open spec fn first_matching_group(gs: Seq<GroupKeysV>, sig: Seq<u8>, msg: Seq<u8>) -> Option<
    Seq<u8>,
>
    decreases gs.len(),
{
    if gs.len() == 0 {
        None
    } else if sig_verifies(gs.first().key, sig, msg) {
        Some(gs.first().key)
    } else {
        first_matching_group(gs.drop_first(), sig, msg)
    }
}

/// Phase 3 signature-origin resolution, in order: the group's own current
/// key; a caller-recognized past key of the group (trusted for attribution
/// as supplied); the known foreign groups' keys.
pub open spec fn propagation_key(
    rv: ReplicaV,
    p: DebitAgreementProofV,
    past_key: Option<Seq<u8>>,
) -> Option<Seq<u8>> {
    let msg = spec_encode_signed_transfer(p.signed_transfer);
    if sig_verifies(rv.peer_replicas.key, p.debiting_replicas_sig, msg) {
        Some(rv.peer_replicas.key)
    } else if past_key is Some {
        past_key
    } else {
        first_matching_group(rv.other_groups, p.debiting_replicas_sig, msg)
    }
}

/// Phase 3: some known key must validate the proof; a credit whose transfer
/// id the recipient's ledger already holds is a no-op.
pub open spec fn receive_verdict(
    rv: ReplicaV,
    p: DebitAgreementProofV,
    past_key: Option<Seq<u8>>,
) -> Verdict {
    let t = p.signed_transfer.transfer;
    match propagation_key(rv, p, past_key) {
        None => Verdict::Fatal(Error::InvalidSignature),
        Some(_) => {
            if has_wallet(rv.wallets, t.to) && wallet_contains(
                spec_wallet(rv.wallets, t.to),
                t.id,
            ) {
                Verdict::NoChange
            } else {
                Verdict::Accept
            }
        },
    }
}

/// Genesis: the one-time creation of money, allowed only on an entirely
/// empty wallet map, and otherwise exactly a phase 3 credit.
pub open spec fn genesis_verdict(
    rv: ReplicaV,
    p: DebitAgreementProofV,
    past_key: Option<Seq<u8>>,
) -> Verdict {
    if rv.wallets.len() != 0 {
        Verdict::Fatal(Error::InvalidOperation)
    } else {
        receive_verdict(rv, p, past_key)
    }
}

/// Learning a foreign group's keys: fatal if the exact key set is already
/// known.
pub open spec fn add_known_group_verdict(rv: ReplicaV, g: GroupKeysV) -> Verdict {
    if group_known(rv.other_groups, g) {
        Verdict::Fatal(Error::DataExists)
    } else {
        Verdict::Accept
    }
}

// ---------------------------------------------------------------------
// The mutation model
// ---------------------------------------------------------------------

pub open spec fn empty_wallet(id: Seq<u8>) -> WalletV {
    WalletV { id, credits: Seq::empty(), debits: Seq::empty() }
}

/// The pending-debit entry of `actor` set to `counter`, created if absent.
pub open spec fn upsert_pending(ps: Seq<PendingV>, actor: Seq<u8>, counter: u64) -> Seq<PendingV> {
    if has_pending(ps, actor) {
        ps.update(pending_idx(ps, actor), PendingV { actor, counter })
    } else {
        ps.push(PendingV { actor, counter })
    }
}

/// The state after crediting `t` to the wallet of `t.to`, created on first
/// credit.
pub open spec fn credit_state(rv: ReplicaV, t: TransferV) -> ReplicaV {
    if has_wallet(rv.wallets, t.to) {
        ReplicaV {
            wallets: rv.wallets.update(
                wallet_idx(rv.wallets, t.to),
                with_credit(spec_wallet(rv.wallets, t.to), t),
            ),
            ..rv
        }
    } else {
        ReplicaV { wallets: rv.wallets.push(with_credit(empty_wallet(t.to), t)), ..rv }
    }
}

/// The state after appending the debit `t` to the sender's ledger; this is
/// the point at which the balance actually decreases.
pub open spec fn debit_state(rv: ReplicaV, t: TransferV) -> ReplicaV {
    ReplicaV {
        wallets: rv.wallets.update(
            wallet_idx(rv.wallets, t.id.actor),
            with_debit(spec_wallet(rv.wallets, t.id.actor), t),
        ),
        ..rv
    }
}

/// Whether applying `e` succeeds. Events are assumed pre-validated by their
/// decision phase; a failure here indicates a prior defect and leaves the
/// state untouched.
pub open spec fn apply_ok(rv: ReplicaV, e: ReplicaEventV) -> bool {
    match e {
        ReplicaEventV::KnownGroupAdded(_) => true,
        ReplicaEventV::TransferValidated(_) => true,
        ReplicaEventV::TransferRegistered(ev) => {
            let t = ev.debit_proof.signed_transfer.transfer;
            has_wallet(rv.wallets, t.id.actor) && debit_ok(spec_wallet(rv.wallets, t.id.actor), t)
        },
        ReplicaEventV::TransferPropagated(ev) => {
            let t = ev.debit_proof.signed_transfer.transfer;
            has_wallet(rv.wallets, t.to) ==> credit_ok(spec_wallet(rv.wallets, t.to), t)
        },
    }
}

/// The deterministic state transition of each event kind.
pub open spec fn apply_v(rv: ReplicaV, e: ReplicaEventV) -> ReplicaV {
    match e {
        ReplicaEventV::KnownGroupAdded(ev) => {
            if group_known(rv.other_groups, ev.group) {
                rv
            } else {
                ReplicaV { other_groups: rv.other_groups.push(ev.group), ..rv }
            }
        },
        ReplicaEventV::TransferValidated(ev) => {
            let t = ev.signed_transfer.transfer;
            ReplicaV {
                pending_debits: upsert_pending(rv.pending_debits, t.id.actor, t.id.counter),
                ..rv
            }
        },
        ReplicaEventV::TransferRegistered(ev) => debit_state(
            rv,
            ev.debit_proof.signed_transfer.transfer,
        ),
        ReplicaEventV::TransferPropagated(ev) => credit_state(
            rv,
            ev.debit_proof.signed_transfer.transfer,
        ),
    }
}

/// Replaying an ordered event history from a starting state: the recovery
/// path, sharing `apply_v` with live mutation.
pub open spec fn replay(rv: ReplicaV, events: Seq<ReplicaEventV>) -> Option<ReplicaV>
    decreases events.len(),
{
    if events.len() == 0 {
        Some(rv)
    } else if apply_ok(rv, events.first()) {
        replay(apply_v(rv, events.first()), events.drop_first())
    } else {
        None
    }
}

/// The state a replica starts from before any event.
pub open spec fn initial_state(key_index: usize, peer_replicas: GroupKeysV) -> ReplicaV {
    ReplicaV {
        key_index,
        peer_replicas,
        other_groups: Seq::empty(),
        wallets: Seq::empty(),
        pending_debits: Seq::empty(),
    }
}

// ---------------------------------------------------------------------
// The replica
// ---------------------------------------------------------------------

/// One member of a threshold-signing group, validating transfers for a set
/// of wallets.
pub struct Replica {
    /// The public key share of this replica (48 bytes).
    id: Vec<u8>,
    /// This replica's secret key share; never exposed outside signing.
    secret_key: threshold_crypto::SecretKeyShare,
    /// The index of this replica's key share within the group set.
    key_index: usize,
    /// The public key material of this replica's own group.
    peer_replicas: GroupKeys,
    /// Key material of other known groups of replicas.
    other_groups: Vec<GroupKeys>,
    /// All wallets this replica validates transfers for.
    wallets: Vec<Wallet>,
    /// Per-wallet pending-debit entries keeping debit initiations sequential.
    pending_debits: Vec<PendingDebit>,
}

impl View for Replica {
    type V = ReplicaV;

    closed spec fn view(&self) -> ReplicaV {
        ReplicaV {
            key_index: self.key_index,
            peer_replicas: self.peer_replicas@,
            other_groups: group_views(self.other_groups@),
            wallets: wallet_views(self.wallets@),
            pending_debits: pending_views(self.pending_debits@),
        }
    }
}

impl Replica {
    /// The state is well formed, and each kept ledger balance is the
    /// derived one.
    pub closed spec fn wf(&self) -> bool {
        &&& replica_state_wf(self@)
        &&& forall|i: int| 0 <= i < self.wallets@.len() ==> (#[trigger] self.wallets@[i]).wf()
    }

    /// A new replica from current state.
    pub fn from_snapshot(
        secret_key: threshold_crypto::SecretKeyShare,
        key_index: usize,
        peer_replicas: GroupKeys,
        other_groups: Vec<GroupKeys>,
        wallets: Vec<Wallet>,
        pending_debits: Vec<PendingDebit>,
    ) -> (r: Replica)
        requires
            forall|i: int| 0 <= i < wallets@.len() ==> (#[trigger] wallets@[i]).wf(),
            replica_state_wf(
                ReplicaV {
                    key_index,
                    peer_replicas: peer_replicas@,
                    other_groups: group_views(other_groups@),
                    wallets: wallet_views(wallets@),
                    pending_debits: pending_views(pending_debits@),
                },
            ),
        ensures
            r.wf(),
            r@ == (ReplicaV {
                key_index,
                peer_replicas: peer_replicas@,
                other_groups: group_views(other_groups@),
                wallets: wallet_views(wallets@),
                pending_debits: pending_views(pending_debits@),
            }),
    {
        let id = public_key_share_bytes(&secret_key);
        Replica { id, secret_key, key_index, peer_replicas, other_groups, wallets, pending_debits }
    }

    /// A new replica reconstructed by replaying a history of events from
    /// empty state. Fails exactly where replaying fails, with no event of
    /// the history skipped.
    pub fn from_history(
        secret_key: threshold_crypto::SecretKeyShare,
        key_index: usize,
        peer_replicas: GroupKeys,
        events: Vec<ReplicaEvent>,
    ) -> (r: Result<Replica, Error>)
        ensures
            match r {
                Ok(rep) => rep.wf() && Some(rep@) == replay(
                    initial_state(key_index, peer_replicas@),
                    event_views(events@),
                ),
                Err(e) => e == Error::InvalidOperation && replay(
                    initial_state(key_index, peer_replicas@),
                    event_views(events@),
                ) is None,
            },
    {
        let ghost all = event_views(events@);
        let ghost init = initial_state(key_index, peer_replicas@);
        let mut instance = Replica::from_snapshot(
            secret_key,
            key_index,
            peer_replicas,
            Vec::new(),
            Vec::new(),
            Vec::new(),
        );
        proof {
            assert(group_views(Seq::<GroupKeys>::empty()) =~= Seq::<GroupKeysV>::empty());
            assert(wallet_views(Seq::<Wallet>::empty()) =~= Seq::<WalletV>::empty());
            assert(pending_views(Seq::<PendingDebit>::empty()) =~= Seq::<PendingV>::empty());
            assert(instance@ == init);
        }
        let mut events = events;
        #[verifier::loop_isolation(false)]
        while events.len() > 0
            invariant
                instance.wf(),
                replay(init, all) == replay(instance@, event_views(events@)),
            decreases events.len(),
        {
            let ghost prior = instance@;
            let ghost remaining = event_views(events@);
            let e = events.remove(0);
            proof {
                assert(event_views(events@) =~= remaining.drop_first());
                assert(e@ == remaining.first());
            }
            match instance.apply(e) {
                Ok(()) => {},
                Err(_) => {
                    proof {
                        assert(remaining.len() > 0);
                        assert(!apply_ok(prior, remaining.first()));
                        assert(replay(prior, remaining) is None);
                    }
                    return Err(Error::InvalidOperation);
                },
            }
        }
        proof {
            assert(event_views(events@) =~= Seq::<ReplicaEventV>::empty());
        }
        Ok(instance)
    }

    // -----------------------------------------------------------------
    // Queries
    // -----------------------------------------------------------------

    /// The credits recorded for `wallet_id` at or after `index`, in order;
    /// nothing for an unknown wallet.
    pub fn credits_since(&self, wallet_id: &Vec<u8>, index: usize) -> (r: Option<Vec<Transfer>>)
        requires
            self.wf(),
        ensures
            match r {
                Some(ts) => has_wallet(self@.wallets, wallet_id@)
                    && crate::wallet::transfer_views(ts@) == ({
                    let cs = spec_wallet(self@.wallets, wallet_id@).credits;
                    if index < cs.len() {
                        cs.subrange(index as int, cs.len() as int)
                    } else {
                        Seq::<TransferV>::empty()
                    }
                }),
                None => !has_wallet(self@.wallets, wallet_id@),
            },
    {
        match self.find_wallet(wallet_id) {
            None => None,
            Some(i) => Some(self.wallets[i].credits_since(index)),
        }
    }

    /// The debits recorded for `wallet_id` at or after `index`, in order;
    /// nothing for an unknown wallet.
    pub fn debits_since(&self, wallet_id: &Vec<u8>, index: usize) -> (r: Option<Vec<Transfer>>)
        requires
            self.wf(),
        ensures
            match r {
                Some(ts) => has_wallet(self@.wallets, wallet_id@)
                    && crate::wallet::transfer_views(ts@) == ({
                    let ds = spec_wallet(self@.wallets, wallet_id@).debits;
                    if index < ds.len() {
                        ds.subrange(index as int, ds.len() as int)
                    } else {
                        Seq::<TransferV>::empty()
                    }
                }),
                None => !has_wallet(self@.wallets, wallet_id@),
            },
    {
        match self.find_wallet(wallet_id) {
            None => None,
            Some(i) => Some(self.wallets[i].debits_since(index)),
        }
    }

    /// The registered balance of `wallet_id`; nothing for an unknown
    /// wallet.
    pub fn balance(&self, wallet_id: &Vec<u8>) -> (r: Option<u64>)
        requires
            self.wf(),
        ensures
            match r {
                Some(b) => has_wallet(self@.wallets, wallet_id@) && b as int == wallet_balance(
                    spec_wallet(self@.wallets, wallet_id@),
                ),
                None => !has_wallet(self@.wallets, wallet_id@),
            },
    {
        match self.find_wallet(wallet_id) {
            None => None,
            Some(i) => Some(self.wallets[i].balance()),
        }
    }

    /// This replica group's public key material.
    pub fn replicas_pk_set(&self) -> (r: Option<GroupKeys>)
        ensures
            match r {
                Some(g) => g@ == self@.peer_replicas,
                None => false,
            },
    {
        Some(self.peer_replicas.clone())
    }

    // -----------------------------------------------------------------
    // Private lookups
    // -----------------------------------------------------------------

    /// The position of `id`'s ledger, if one exists.
    fn find_wallet(&self, id: &Vec<u8>) -> (r: Option<usize>)
        requires
            self.wf(),
        ensures
            match r {
                Some(i) => has_wallet(self@.wallets, id@) && i as int == wallet_idx(
                    self@.wallets,
                    id@,
                ) && i < self.wallets@.len(),
                None => !has_wallet(self@.wallets, id@),
            },
    {
        let n = self.wallets.len();
        let mut i: usize = 0;
        while i < n
            invariant
                self.wf(),
                n == self.wallets@.len(),
                0 <= i <= n,
                forall|j: int| 0 <= j < i ==> (#[trigger] self@.wallets[j]).id != id@,
            decreases n - i,
        {
            if bytes_eq(self.wallets[i].id(), id) {
                proof {
                    assert(self@.wallets[i as int].id == id@);
                    let k = wallet_idx(self@.wallets, id@);
                    assert(0 <= k < self@.wallets.len() && self@.wallets[k].id == id@);
                    if k != i as int {
                        assert(false);
                    }
                }
                return Some(i);
            }
            i += 1;
        }
        None
    }

    /// The position of `actor`'s pending-debit entry, if one exists.
    fn find_pending(&self, actor: &Vec<u8>) -> (r: Option<usize>)
        requires
            self.wf(),
        ensures
            match r {
                Some(i) => has_pending(self@.pending_debits, actor@) && i as int == pending_idx(
                    self@.pending_debits,
                    actor@,
                ) && i < self.pending_debits@.len(),
                None => !has_pending(self@.pending_debits, actor@),
            },
    {
        let n = self.pending_debits.len();
        let mut i: usize = 0;
        while i < n
            invariant
                self.wf(),
                n == self.pending_debits@.len(),
                0 <= i <= n,
                forall|j: int| 0 <= j < i ==> (#[trigger] self@.pending_debits[j]).actor != actor@,
            decreases n - i,
        {
            if bytes_eq(&self.pending_debits[i].actor, actor) {
                proof {
                    assert(self@.pending_debits[i as int].actor == actor@);
                    let k = pending_idx(self@.pending_debits, actor@);
                    assert(0 <= k < self@.pending_debits.len() && self@.pending_debits[k].actor
                        == actor@);
                    if k != i as int {
                        assert(false);
                    }
                }
                return Some(i);
            }
            i += 1;
        }
        None
    }

    // -----------------------------------------------------------------
    // Decisions
    // -----------------------------------------------------------------

    /// Phase 1: main business-logic validation of a debit, deciding exactly
    /// as `validate_verdict` over the current state; on success the event
    /// carries the request, this replica's partial signature, and the
    /// group's key set.
    pub fn validate(&self, signed_transfer: SignedTransfer) -> (r: Result<
        Outcome<TransferValidated>,
        Error,
    >)
        requires
            self.wf(),
        ensures
            ({
                let v = validate_verdict(self@, signed_transfer@);
                match r {
                    Ok(Outcome::Success(ev)) => v == Verdict::Accept && ev.signed_transfer@
                        == signed_transfer@ && ev.replicas@ == self@.peer_replicas
                        && ev.replica_signature.index == self@.key_index,
                    Ok(Outcome::Rejected(rej)) => v == Verdict::Reject(rej),
                    Ok(Outcome::NoChange) => false,
                    Err(e) => v == Verdict::Fatal(e),
                }
            }),
    {
        if !self.verify_actor_signature(&signed_transfer) {
            return Err(Error::InvalidSignature);
        }
        if bytes_eq(&signed_transfer.transfer.id.actor, &signed_transfer.transfer.to) {
            return Ok(Outcome::Rejected(Rejection::SelfTransfer));
        }
        if signed_transfer.transfer.amount == 0 {
            return Ok(Outcome::Rejected(Rejection::ZeroValue));
        }
        let sender = match self.find_wallet(&signed_transfer.transfer.id.actor) {
            None => {
                return Err(Error::NoSuchSender);
            },
            Some(i) => i,
        };
        let counter_ok = match self.find_pending(&signed_transfer.transfer.id.actor) {
            None => signed_transfer.transfer.id.counter == 0,
            Some(i) => {
                let c = self.pending_debits[i].counter;
                c < u64::MAX && signed_transfer.transfer.id.counter == c + 1
            },
        };
        if !counter_ok {
            return Err(Error::OutOfOrder);
        }
        assert(self.wallets@[sender as int].wf());
        if signed_transfer.transfer.amount > self.wallets[sender].balance() {
            return Err(Error::InsufficientBalance);
        }
        let replica_signature = self.sign_validated_transfer(&signed_transfer);
        let replicas = self.peer_replicas.clone();
        Ok(Outcome::Success(TransferValidated { signed_transfer, replica_signature, replicas }))
    }

    /// The unauthenticated issuance entry point for test or bootstrap money
    /// creation: skips the sender-existence and balance checks and declines
    /// only a literal self-transfer. Not to be wired into production use.
    pub fn test_validate_transfer(&self, signed_transfer: SignedTransfer) -> (r: Result<
        Outcome<TransferValidated>,
        Error,
    >)
        ensures
            ({
                let v = test_validate_verdict(signed_transfer@);
                match r {
                    Ok(Outcome::Success(ev)) => v == Verdict::Accept && ev.signed_transfer@
                        == signed_transfer@ && ev.replicas@ == self@.peer_replicas
                        && ev.replica_signature.index == self@.key_index,
                    Ok(Outcome::Rejected(rej)) => v == Verdict::Reject(rej),
                    Ok(Outcome::NoChange) => false,
                    Err(e) => false,
                }
            }),
    {
        if bytes_eq(&signed_transfer.transfer.id.actor, &signed_transfer.transfer.to) {
            return Ok(Outcome::Rejected(Rejection::SelfTransfer));
        }
        let replica_signature = self.sign_validated_transfer(&signed_transfer);
        let replicas = self.peer_replicas.clone();
        Ok(Outcome::Success(TransferValidated { signed_transfer, replica_signature, replicas }))
    }

    /// Phase 2: validation of agreement and of order at the debit source,
    /// deciding exactly as `register_verdict`. `past_key_check` is the
    /// caller-supplied answer to "is this signature from a recognized past
    /// epoch's key", consulted when the group's own key does not verify.
    pub fn register(&self, debit_proof: &DebitAgreementProof, past_key_check: bool) -> (r: Result<
        Outcome<TransferRegistered>,
        Error,
    >)
        requires
            self.wf(),
        ensures
            ({
                let v = register_verdict(self@, debit_proof@, past_key_check);
                match r {
                    Ok(Outcome::Success(ev)) => v == Verdict::Accept && ev.debit_proof@
                        == debit_proof@,
                    Ok(Outcome::Rejected(rej)) => v == Verdict::Reject(rej),
                    Ok(Outcome::NoChange) => false,
                    Err(e) => v == Verdict::Fatal(e),
                }
            }),
    {
        let msg = encode_signed_transfer(&debit_proof.signed_transfer);
        let own = verify_sig(&self.peer_replicas.key, &debit_proof.debiting_replicas_sig, &msg);
        if !(own || past_key_check) {
            return Err(Error::InvalidSignature);
        }
        let sender = match self.find_wallet(&debit_proof.signed_transfer.transfer.id.actor) {
            None => {
                return Err(Error::NoSuchSender);
            },
            Some(i) => i,
        };
        assert(self.wallets@[sender as int].wf());
        if !self.wallets[sender].is_sequential(&debit_proof.signed_transfer.transfer) {
            return Ok(Outcome::Rejected(Rejection::NonSequential));
        }
        Ok(Outcome::Success(TransferRegistered { debit_proof: debit_proof.clone() }))
    }

    /// Phase 3: validation of a propagated proof and credit idempotency at
    /// the credit destination, deciding exactly as `receive_verdict`.
    /// `past_key` is the caller-supplied recognized past key of this group,
    /// if any, used for attribution when the current key does not verify.
    pub fn receive_propagated(
        &self,
        debit_proof: &DebitAgreementProof,
        past_key: Option<Vec<u8>>,
    ) -> (r: Result<Outcome<TransferPropagated>, Error>)
        requires
            self.wf(),
        ensures
            ({
                let v = receive_verdict(self@, debit_proof@, opt_bytes_view(past_key));
                match r {
                    Ok(Outcome::Success(ev)) => v == Verdict::Accept && ev.debit_proof@
                        == debit_proof@ && Some(ev.debiting_replicas@) == propagation_key(
                        self@,
                        debit_proof@,
                        opt_bytes_view(past_key),
                    ) && ev.crediting_replica_sig.index == self@.key_index,
                    Ok(Outcome::Rejected(rej)) => false,
                    Ok(Outcome::NoChange) => v == Verdict::NoChange,
                    Err(e) => v == Verdict::Fatal(e),
                }
            }),
    {
        let debiting_replicas = match self.resolve_propagated_key(debit_proof, past_key) {
            None => {
                return Err(Error::InvalidSignature);
            },
            Some(k) => k,
        };
        let already = match self.find_wallet(&debit_proof.signed_transfer.transfer.to) {
            None => false,
            Some(i) => self.wallets[i].contains(&debit_proof.signed_transfer.transfer.id),
        };
        if already {
            return Ok(Outcome::NoChange);
        }
        let crediting_replica_sig = self.sign_proof(debit_proof);
        Ok(
            Outcome::Success(
                TransferPropagated {
                    debit_proof: debit_proof.clone(),
                    debiting_replicas,
                    crediting_replica_sig,
                },
            ),
        )
    }

    /// The one and only infusion of money into the system: a phase 3 credit
    /// additionally gated on the entire wallet map being empty.
    pub fn genesis(&self, debit_proof: &DebitAgreementProof, past_key: Option<Vec<u8>>) -> (r:
        Result<Outcome<TransferPropagated>, Error>)
        requires
            self.wf(),
        ensures
            ({
                let v = genesis_verdict(self@, debit_proof@, opt_bytes_view(past_key));
                match r {
                    Ok(Outcome::Success(ev)) => v == Verdict::Accept && ev.debit_proof@
                        == debit_proof@ && Some(ev.debiting_replicas@) == propagation_key(
                        self@,
                        debit_proof@,
                        opt_bytes_view(past_key),
                    ) && ev.crediting_replica_sig.index == self@.key_index,
                    Ok(Outcome::Rejected(rej)) => false,
                    Ok(Outcome::NoChange) => v == Verdict::NoChange,
                    Err(e) => v == Verdict::Fatal(e),
                }
            }),
    {
        if self.wallets.len() != 0 {
            return Err(Error::InvalidOperation);
        }
        self.receive_propagated(debit_proof, past_key)
    }

    /// Records that a new foreign group's key set was learned, for future
    /// phase 3 resolution; fatal if the exact key set is already known.
    pub fn add_known_group(&self, group: GroupKeys) -> (r: Result<Outcome<KnownGroupAdded>, Error>)
        ensures
            ({
                let v = add_known_group_verdict(self@, group@);
                match r {
                    Ok(Outcome::Success(ev)) => v == Verdict::Accept && ev.group@ == group@,
                    Ok(Outcome::Rejected(rej)) => false,
                    Ok(Outcome::NoChange) => false,
                    Err(e) => v == Verdict::Fatal(e),
                }
            }),
    {
        if self.contains_group(&group) {
            return Err(Error::DataExists);
        }
        Ok(Outcome::Success(KnownGroupAdded { group }))
    }

    // -----------------------------------------------------------------
    // Mutation
    // -----------------------------------------------------------------

    /// The sole mutator. Events are assumed validated by their decision
    /// phase; applying transitions the state exactly as `apply_v`, and a
    /// failure (a prior defect, not a runtime condition) leaves the state
    /// entirely unchanged.
    pub fn apply(&mut self, event: ReplicaEvent) -> (r: Result<(), Error>)
        requires
            old(self).wf(),
        ensures
            final(self).wf(),
            apply_ok(old(self)@, event@) ==> r is Ok && final(self)@ == apply_v(
                old(self)@,
                event@,
            ),
            !apply_ok(old(self)@, event@) ==> r == Err::<(), Error>(Error::InvalidOperation)
                && final(self)@ == old(self)@,
    {
        match event {
            ReplicaEvent::KnownGroupAdded(e) => {
                let ghost gv = e.group@;
                if !self.contains_group(&e.group) {
                    let ghost prior = self.other_groups@;
                    self.other_groups.push(e.group);
                    proof {
                        assert(group_views(self.other_groups@) =~= group_views(prior).push(gv));
                        assert(self@ == apply_v(old(self)@, event@));
                    }
                } else {
                    assert(self@ == apply_v(old(self)@, event@));
                }
                Ok(())
            },
            ReplicaEvent::TransferValidated(e) => {
                let t = e.signed_transfer.transfer;
                let ghost tv = t@;
                let entry = PendingDebit { actor: t.id.actor, counter: t.id.counter };
                let ghost ev = entry@;
                let ghost prior = self.pending_debits@;
                match self.find_pending(&entry.actor) {
                    Some(i) => {
                        self.pending_debits.set(i, entry);
                        proof {
                            assert(pending_views(self.pending_debits@) =~= pending_views(
                                prior,
                            ).update(i as int, ev));
                        }
                    },
                    None => {
                        self.pending_debits.push(entry);
                        proof {
                            assert(pending_views(self.pending_debits@) =~= pending_views(
                                prior,
                            ).push(ev));
                        }
                    },
                }
                proof {
                    assert(self@.pending_debits == upsert_pending(
                        old(self)@.pending_debits,
                        tv.id.actor,
                        tv.id.counter,
                    ));
                    assert(self@ == apply_v(old(self)@, event@));
                    lemma_apply_preserves_wf(old(self)@, event@);
                }
                Ok(())
            },
            ReplicaEvent::TransferRegistered(e) => {
                let t = e.debit_proof.signed_transfer.transfer;
                let ghost tv = t@;
                match self.find_wallet(&t.id.actor) {
                    None => {
                        assert(!apply_ok(old(self)@, event@));
                        Err(Error::InvalidOperation)
                    },
                    Some(i) => {
                        let ghost wsprior = self.wallets@;
                        assert(wsprior[i as int].wf());
                        let mut w = self.wallets.remove(i);
                        let res = w.append_debit(t);
                        let ghost wv = w@;
                        self.wallets.insert(i, w);
                        proof {
                            assert(self.wallets@ =~= wsprior.update(i as int, self.wallets@[i as int]));
                            assert(wallet_views(self.wallets@) =~= wallet_views(wsprior).update(
                                i as int,
                                wv,
                            ));
                            assert forall|j: int|
                                0 <= j < self.wallets@.len() implies (
                            #[trigger] self.wallets@[j]).wf() by {
                                if j != i as int {
                                    assert(self.wallets@[j] == wsprior[j]);
                                }
                            }
                        }
                        match res {
                            Ok(()) => {
                                proof {
                                    assert(self@ == apply_v(old(self)@, event@));
                                    lemma_apply_preserves_wf(old(self)@, event@);
                                }
                                Ok(())
                            },
                            Err(_) => {
                                proof {
                                    assert(self@.wallets =~= old(self)@.wallets);
                                    assert(self@ == old(self)@);
                                }
                                Err(Error::InvalidOperation)
                            },
                        }
                    },
                }
            },
            ReplicaEvent::TransferPropagated(e) => {
                let t = e.debit_proof.signed_transfer.transfer;
                let ghost tv = t@;
                match self.find_wallet(&t.to) {
                    Some(i) => {
                        let ghost wsprior = self.wallets@;
                        assert(wsprior[i as int].wf());
                        let mut w = self.wallets.remove(i);
                        let res = w.append_credit(t);
                        let ghost wv = w@;
                        self.wallets.insert(i, w);
                        proof {
                            assert(self.wallets@ =~= wsprior.update(i as int, self.wallets@[i as int]));
                            assert(wallet_views(self.wallets@) =~= wallet_views(wsprior).update(
                                i as int,
                                wv,
                            ));
                            assert forall|j: int|
                                0 <= j < self.wallets@.len() implies (
                            #[trigger] self.wallets@[j]).wf() by {
                                if j != i as int {
                                    assert(self.wallets@[j] == wsprior[j]);
                                }
                            }
                        }
                        match res {
                            Ok(()) => {
                                proof {
                                    assert(self@ == apply_v(old(self)@, event@));
                                    lemma_apply_preserves_wf(old(self)@, event@);
                                }
                                Ok(())
                            },
                            Err(_) => {
                                proof {
                                    assert(self@.wallets =~= old(self)@.wallets);
                                    assert(self@ == old(self)@);
                                }
                                Err(Error::InvalidOperation)
                            },
                        }
                    },
                    None => {
                        let ghost wsprior = self.wallets@;
                        let mut w = Wallet::new(clone_bytes(&t.to));
                        let ghost emptyv = w@;
                        let _ = w.append_credit(t);
                        proof {
                            assert(crate::wallet::sum_amounts(emptyv.credits) == 0);
                            assert(crate::wallet::sum_amounts(emptyv.debits) == 0);
                            assert(credit_ok(emptyv, tv));
                        }
                        let ghost wv = w@;
                        self.wallets.push(w);
                        proof {
                            assert(wallet_views(self.wallets@) =~= wallet_views(wsprior).push(wv));
                            assert forall|j: int|
                                0 <= j < self.wallets@.len() implies (
                            #[trigger] self.wallets@[j]).wf() by {
                                if j != wsprior.len() as int {
                                    assert(self.wallets@[j] == wsprior[j]);
                                }
                            }
                            assert(self@ == apply_v(old(self)@, event@));
                            lemma_apply_preserves_wf(old(self)@, event@);
                        }
                        Ok(())
                    },
                }
            },
        }
    }

    /// Test-helper: simulate a client credit without a proof, creating the
    /// wallet if it does not exist. The credited balance must stay
    /// representable.
    pub fn credit_without_proof(&mut self, transfer: Transfer)
        requires
            old(self).wf(),
            has_wallet(old(self)@.wallets, transfer@.to) ==> credit_ok(
                spec_wallet(old(self)@.wallets, transfer@.to),
                transfer@,
            ),
        ensures
            final(self).wf(),
            final(self)@ == credit_state(old(self)@, transfer@),
    {
        let ghost tv = transfer@;
        match self.find_wallet(&transfer.to) {
            Some(i) => {
                let ghost wsprior = self.wallets@;
                assert(wsprior[i as int].wf());
                let mut w = self.wallets.remove(i);
                let _ = w.append_credit(transfer);
                let ghost wv = w@;
                self.wallets.insert(i, w);
                proof {
                    assert(self.wallets@ =~= wsprior.update(i as int, self.wallets@[i as int]));
                    assert(wallet_views(self.wallets@) =~= wallet_views(wsprior).update(
                        i as int,
                        wv,
                    ));
                    assert forall|j: int|
                        0 <= j < self.wallets@.len() implies (#[trigger] self.wallets@[j]).wf() by {
                        if j != i as int {
                            assert(self.wallets@[j] == wsprior[j]);
                        }
                    }
                    assert(self@ == credit_state(old(self)@, tv));
                    lemma_credit_state_wf(old(self)@, tv);
                }
            },
            None => {
                let ghost wsprior = self.wallets@;
                let mut w = Wallet::new(clone_bytes(&transfer.to));
                let ghost emptyv = w@;
                let _ = w.append_credit(transfer);
                proof {
                    assert(crate::wallet::sum_amounts(emptyv.credits) == 0);
                    assert(crate::wallet::sum_amounts(emptyv.debits) == 0);
                    assert(credit_ok(emptyv, tv));
                }
                let ghost wv = w@;
                self.wallets.push(w);
                proof {
                    assert(wallet_views(self.wallets@) =~= wallet_views(wsprior).push(wv));
                    assert forall|j: int|
                        0 <= j < self.wallets@.len() implies (#[trigger] self.wallets@[j]).wf() by {
                        if j != wsprior.len() as int {
                            assert(self.wallets@[j] == wsprior[j]);
                        }
                    }
                    assert(self@ == credit_state(old(self)@, tv));
                    lemma_credit_state_wf(old(self)@, tv);
                }
            },
        }
    }

    /// Test-helper: simulate a client debit without a proof. The wallet
    /// must exist and the debit must continue its ledger within the
    /// balance.
    pub fn debit_without_proof(&mut self, transfer: Transfer)
        requires
            old(self).wf(),
            has_wallet(old(self)@.wallets, transfer@.id.actor),
            debit_ok(spec_wallet(old(self)@.wallets, transfer@.id.actor), transfer@),
        ensures
            final(self).wf(),
            final(self)@ == debit_state(old(self)@, transfer@),
    {
        let ghost tv = transfer@;
        let i = match self.find_wallet(&transfer.id.actor) {
            Some(i) => i,
            None => {
                proof {
                    assert(false);
                }
                0
            },
        };
        let ghost wsprior = self.wallets@;
        assert(wsprior[i as int].wf());
        let mut w = self.wallets.remove(i);
        let _ = w.append_debit(transfer);
        let ghost wv = w@;
        self.wallets.insert(i, w);
        proof {
            assert(self.wallets@ =~= wsprior.update(i as int, self.wallets@[i as int]));
            assert(wallet_views(self.wallets@) =~= wallet_views(wsprior).update(i as int, wv));
            assert forall|j: int|
                0 <= j < self.wallets@.len() implies (#[trigger] self.wallets@[j]).wf() by {
                if j != i as int {
                    assert(self.wallets@[j] == wsprior[j]);
                }
            }
            assert(self@ == debit_state(old(self)@, tv));
            lemma_debit_state_wf(old(self)@, tv);
        }
    }

    // -----------------------------------------------------------------
    // Private signing and verification
    // -----------------------------------------------------------------

    /// Whether the sender's own signature over the transfer verifies
    /// against the sender's claimed public identity.
    fn verify_actor_signature(&self, st: &SignedTransfer) -> (r: bool)
        ensures
            r == sig_verifies(
                st@.transfer.id.actor,
                st@.actor_signature,
                spec_encode_transfer(st@.transfer),
            ),
    {
        let msg = encode_transfer(&st.transfer);
        verify_sig(&st.transfer.id.actor, &st.actor_signature, &msg)
    }

    /// This replica's indexed partial signature over a signed transfer.
    fn sign_validated_transfer(&self, st: &SignedTransfer) -> (r: SignatureShare)
        ensures
            r.index == self@.key_index,
    {
        let msg = encode_signed_transfer(st);
        SignatureShare { index: self.key_index, share: sign_share(&self.secret_key, &msg) }
    }

    /// This replica's indexed partial signature over a debit agreement
    /// proof: the second, independent attestation the crediting side uses
    /// to build its cross-shard receipt.
    fn sign_proof(&self, debit_proof: &DebitAgreementProof) -> (r: SignatureShare)
        ensures
            r.index == self@.key_index,
    {
        let msg = encode_proof(debit_proof);
        SignatureShare { index: self.key_index, share: sign_share(&self.secret_key, &msg) }
    }

    /// Resolves which key validated the proof, in the order fixed by
    /// `propagation_key`: own current key, recognized past key, known
    /// foreign groups.
    fn resolve_propagated_key(
        &self,
        debit_proof: &DebitAgreementProof,
        past_key: Option<Vec<u8>>,
    ) -> (r: Option<Vec<u8>>)
        ensures
            match r {
                Some(k) => propagation_key(self@, debit_proof@, opt_bytes_view(past_key)) == Some(
                    k@,
                ),
                None => propagation_key(self@, debit_proof@, opt_bytes_view(past_key)) is None,
            },
    {
        let msg = encode_signed_transfer(&debit_proof.signed_transfer);
        if verify_sig(&self.peer_replicas.key, &debit_proof.debiting_replicas_sig, &msg) {
            return Some(clone_bytes(&self.peer_replicas.key));
        }
        match &past_key {
            Some(k) => {
                return Some(clone_bytes(k));
            },
            None => {},
        }
        let ghost gs = self@.other_groups;
        let ghost sig = debit_proof@.debiting_replicas_sig;
        let n = self.other_groups.len();
        let mut i: usize = 0;
        proof {
            assert(gs.skip(0) =~= gs);
        }
        #[verifier::loop_isolation(false)]
        while i < n
            invariant
                n == self.other_groups@.len(),
                0 <= i <= n,
                gs == self@.other_groups,
                sig == debit_proof@.debiting_replicas_sig,
                msg@ == spec_encode_signed_transfer(debit_proof@.signed_transfer),
                first_matching_group(gs, sig, msg@) == first_matching_group(
                    gs.skip(i as int),
                    sig,
                    msg@,
                ),
            decreases n - i,
        {
            if verify_sig(&self.other_groups[i].key, &debit_proof.debiting_replicas_sig, &msg) {
                proof {
                    assert(gs[i as int] == self.other_groups@[i as int]@);
                    assert(sig_verifies(gs[i as int].key, sig, msg@));
                    assert(gs.skip(i as int).first() == gs[i as int]);
                    assert(first_matching_group(gs.skip(i as int), sig, msg@) == Some(
                        gs[i as int].key,
                    ));
                    assert(propagation_key(self@, debit_proof@, opt_bytes_view(past_key)) == Some(
                        gs[i as int].key,
                    ));
                }
                return Some(clone_bytes(&self.other_groups[i].key));
            }
            proof {
                assert(gs.skip(i as int).first() == gs[i as int]);
                assert(gs.skip(i as int).drop_first() =~= gs.skip(i as int + 1));
            }
            i += 1;
        }
        proof {
            assert(gs.skip(n as int).len() == 0);
        }
        None
    }

    /// Whether this exact foreign key set is already known.
    fn contains_group(&self, g: &GroupKeys) -> (r: bool)
        ensures
            r == group_known(self@.other_groups, g@),
    {
        let n = self.other_groups.len();
        let mut i: usize = 0;
        while i < n
            invariant
                n == self.other_groups@.len(),
                0 <= i <= n,
                forall|j: int| 0 <= j < i ==> #[trigger] self@.other_groups[j] != g@,
            decreases n - i,
        {
            let c = &self.other_groups[i];
            if bytes_eq(&c.set_bytes, &g.set_bytes) && bytes_eq(&c.key, &g.key) {
                assert(self@.other_groups[i as int] == g@);
                return true;
            }
            i += 1;
        }
        false
    }
}

// ---------------------------------------------------------------------
// Preservation of well-formedness by the mutation model
// ---------------------------------------------------------------------

/// Crediting a wallet (created on first credit) keeps the state well
/// formed, provided the credited balance stays representable.
pub proof fn lemma_credit_state_wf(rv: ReplicaV, t: TransferV)
    requires
        replica_state_wf(rv),
        has_wallet(rv.wallets, t.to) ==> credit_ok(spec_wallet(rv.wallets, t.to), t),
    ensures
        replica_state_wf(credit_state(rv, t)),
{
    let rv2 = credit_state(rv, t);
    if has_wallet(rv.wallets, t.to) {
        let i = wallet_idx(rv.wallets, t.to);
        assert(0 <= i < rv.wallets.len() && rv.wallets[i].id == t.to);
        assert(wallet_wf(rv.wallets[i]));
        crate::wallet::lemma_credit_preserves_wf(rv.wallets[i], t);
        assert forall|a: int| 0 <= a < rv2.wallets.len() implies wallet_wf(
            #[trigger] rv2.wallets[a],
        ) by {
            if a != i {
                assert(rv2.wallets[a] == rv.wallets[a]);
            }
        }
        assert forall|a: int, b: int| 0 <= a < b < rv2.wallets.len() implies (
        #[trigger] rv2.wallets[a]).id != (#[trigger] rv2.wallets[b]).id by {
            assert(rv2.wallets[a].id == rv.wallets[a].id);
            assert(rv2.wallets[b].id == rv.wallets[b].id);
        }
    } else {
        let w0 = empty_wallet(t.to);
        assert(crate::wallet::sum_amounts(w0.credits) == 0);
        assert(crate::wallet::sum_amounts(w0.debits) == 0);
        assert(wallet_wf(w0));
        assert(credit_ok(w0, t));
        crate::wallet::lemma_credit_preserves_wf(w0, t);
        assert forall|a: int| 0 <= a < rv2.wallets.len() implies wallet_wf(
            #[trigger] rv2.wallets[a],
        ) by {
            if a != rv.wallets.len() as int {
                assert(rv2.wallets[a] == rv.wallets[a]);
            }
        }
        assert forall|a: int, b: int| 0 <= a < b < rv2.wallets.len() implies (
        #[trigger] rv2.wallets[a]).id != (#[trigger] rv2.wallets[b]).id by {
            if b == rv.wallets.len() as int {
                assert(rv.wallets[a].id != t.to);
            }
        }
    }
}

/// Appending a valid debit to an existing ledger keeps the state well
/// formed.
pub proof fn lemma_debit_state_wf(rv: ReplicaV, t: TransferV)
    requires
        replica_state_wf(rv),
        has_wallet(rv.wallets, t.id.actor),
        debit_ok(spec_wallet(rv.wallets, t.id.actor), t),
    ensures
        replica_state_wf(debit_state(rv, t)),
{
    let rv2 = debit_state(rv, t);
    let i = wallet_idx(rv.wallets, t.id.actor);
    assert(0 <= i < rv.wallets.len() && rv.wallets[i].id == t.id.actor);
    assert(wallet_wf(rv.wallets[i]));
    crate::wallet::lemma_debit_preserves_wf(rv.wallets[i], t);
    assert forall|a: int| 0 <= a < rv2.wallets.len() implies wallet_wf(
        #[trigger] rv2.wallets[a],
    ) by {
        if a != i {
            assert(rv2.wallets[a] == rv.wallets[a]);
        }
    }
    assert forall|a: int, b: int| 0 <= a < b < rv2.wallets.len() implies (
    #[trigger] rv2.wallets[a]).id != (#[trigger] rv2.wallets[b]).id by {
        assert(rv2.wallets[a].id == rv.wallets[a].id);
        assert(rv2.wallets[b].id == rv.wallets[b].id);
    }
}

/// Setting or creating a pending-debit entry keeps the state well formed.
pub proof fn lemma_pending_upsert_wf(rv: ReplicaV, actor: Seq<u8>, counter: u64)
    requires
        replica_state_wf(rv),
    ensures
        replica_state_wf(
            ReplicaV { pending_debits: upsert_pending(rv.pending_debits, actor, counter), ..rv },
        ),
{
    let ps = rv.pending_debits;
    let ps2 = upsert_pending(ps, actor, counter);
    if has_pending(ps, actor) {
        let i = pending_idx(ps, actor);
        assert(0 <= i < ps.len() && ps[i].actor == actor);
        assert forall|a: int, b: int| 0 <= a < b < ps2.len() implies (#[trigger] ps2[a]).actor != (
        #[trigger] ps2[b]).actor by {
            assert(ps2[a].actor == ps[a].actor);
            assert(ps2[b].actor == ps[b].actor);
        }
    } else {
        assert forall|a: int, b: int| 0 <= a < b < ps2.len() implies (#[trigger] ps2[a]).actor != (
        #[trigger] ps2[b]).actor by {
            if b == ps.len() as int {
                assert(ps[a].actor != actor);
            }
        }
    }
}

/// Applying any event that `apply_ok` admits preserves well-formedness of
/// the state: every ledger stays well formed (in particular no balance goes
/// negative), and ledgers and pending entries stay uniquely keyed.
pub proof fn lemma_apply_preserves_wf(rv: ReplicaV, e: ReplicaEventV)
    requires
        replica_state_wf(rv),
        apply_ok(rv, e),
    ensures
        replica_state_wf(apply_v(rv, e)),
{
    match e {
        ReplicaEventV::KnownGroupAdded(_) => {},
        ReplicaEventV::TransferValidated(ev) => {
            let t = ev.signed_transfer.transfer;
            lemma_pending_upsert_wf(rv, t.id.actor, t.id.counter);
        },
        ReplicaEventV::TransferRegistered(ev) => {
            lemma_debit_state_wf(rv, ev.debit_proof.signed_transfer.transfer);
        },
        ReplicaEventV::TransferPropagated(ev) => {
            lemma_credit_state_wf(rv, ev.debit_proof.signed_transfer.transfer);
        },
    }
}

} // verus!
