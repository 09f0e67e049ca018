//! The protocol-level laws the replica guarantees, stated and proved over
//! the spec-level state model shared with the executable code.

use crate::crypto::sig_verifies;
use crate::encoding::{spec_encode_signed_transfer, spec_encode_transfer};
use crate::replica::{apply_ok, apply_v, has_pending, has_wallet, initial_state,
    lemma_apply_preserves_wf, pending_idx, propagation_key, receive_verdict, register_verdict,
    replay, replica_state_wf, spec_pending, spec_wallet, upsert_pending, validate_verdict,
    wallet_idx, PendingV, ReplicaV};
use crate::types::{DebitAgreementProofV, Error, Rejection, ReplicaEventV, SignedTransferV,
    TransferPropagatedV, TransferRegisteredV, TransferValidatedV, Verdict};
use crate::wallet::{lemma_credit_preserves_wf, lemma_sum_push, sum_amounts, wallet_balance,
    wallet_contains, wallet_wf, with_credit, with_debit, WalletV};
use vstd::prelude::*;

verus! {

/// For every well-formed wallet, the balance equals the sum of its
/// registered credits minus the sum of its registered debits, and is never
/// negative.
pub proof fn lemma_wallet_balance_law(w: WalletV)
    requires
        wallet_wf(w),
    ensures
        wallet_balance(w) == sum_amounts(w.credits) - sum_amounts(w.debits),
        0 <= wallet_balance(w),
{
}

/// The state a replica starts from is well formed.
pub proof fn lemma_initial_state_wf(key_index: usize, peer_replicas: crate::types::GroupKeysV)
    ensures
        replica_state_wf(initial_state(key_index, peer_replicas)),
{
}

/// Any state reached by replaying a history of applicable events from a
/// well-formed state is well formed; in particular every wallet's balance
/// stays non-negative after any such sequence of operations.
pub proof fn lemma_replay_preserves_wf(rv: ReplicaV, events: Seq<ReplicaEventV>)
    requires
        replica_state_wf(rv),
        replay(rv, events) is Some,
    ensures
        replica_state_wf(replay(rv, events)->Some_0),
    decreases events.len(),
{
    if events.len() > 0 {
        lemma_apply_preserves_wf(rv, events.first());
        lemma_replay_preserves_wf(apply_v(rv, events.first()), events.drop_first());
    }
}

/// After setting or creating the pending counter of `actor`, looking it up
/// yields exactly the written counter, provided entries were uniquely keyed.
pub proof fn lemma_upsert_pending_lookup(ps: Seq<PendingV>, actor: Seq<u8>, counter: u64)
    requires
        forall|i: int, j: int|
            0 <= i < j < ps.len() ==> (#[trigger] ps[i]).actor != (#[trigger] ps[j]).actor,
    ensures
        spec_pending(upsert_pending(ps, actor, counter), actor) == Some(counter),
{
    let ps2 = upsert_pending(ps, actor, counter);
    if has_pending(ps, actor) {
        let i = pending_idx(ps, actor);
        assert(0 <= i < ps.len() && ps[i].actor == actor);
        assert(ps2[i].actor == actor && ps2[i].counter == counter);
        assert(has_pending(ps2, actor));
        let k = pending_idx(ps2, actor);
        assert(0 <= k < ps2.len() && ps2[k].actor == actor);
        if k != i {
            assert(ps2[k] == ps[k]);
            assert(false);
        }
    } else {
        let n = ps.len() as int;
        assert(ps2[n].actor == actor && ps2[n].counter == counter);
        assert(has_pending(ps2, actor));
        let k = pending_idx(ps2, actor);
        assert(0 <= k < ps2.len() && ps2[k].actor == actor);
        if k != n {
            assert(ps2[k] == ps[k]);
            assert(false);
        }
    }
}

/// A uniquely keyed wallet sequence looks up each of its positions by id.
pub proof fn lemma_wallet_idx_at(ws: Seq<WalletV>, i: int)
    requires
        forall|a: int, b: int|
            0 <= a < b < ws.len() ==> (#[trigger] ws[a]).id != (#[trigger] ws[b]).id,
        0 <= i < ws.len(),
    ensures
        has_wallet(ws, ws[i].id),
        wallet_idx(ws, ws[i].id) == i,
{
    assert(has_wallet(ws, ws[i].id));
    let k = wallet_idx(ws, ws[i].id);
    assert(0 <= k < ws.len() && ws[k].id == ws[i].id);
    if k != i {
        assert(false);
    }
}

/// The pending-debit counter law: an accepted validation carries counter 0
/// for a wallet without a recorded counter and exactly its successor
/// otherwise, and applying the validated event records the carried counter —
/// each accepted validation advances it by exactly one.
pub proof fn lemma_pending_counter_law(rv: ReplicaV, ev: TransferValidatedV)
    requires
        replica_state_wf(rv),
        validate_verdict(rv, ev.signed_transfer) == Verdict::Accept,
    ensures
        (match spec_pending(rv.pending_debits, ev.signed_transfer.transfer.id.actor) {
            None => ev.signed_transfer.transfer.id.counter == 0,
            Some(c) => ev.signed_transfer.transfer.id.counter == c + 1,
        }),
        spec_pending(
            apply_v(rv, ReplicaEventV::TransferValidated(ev)).pending_debits,
            ev.signed_transfer.transfer.id.actor,
        ) == Some(ev.signed_transfer.transfer.id.counter),
{
    let t = ev.signed_transfer.transfer;
    lemma_upsert_pending_lookup(rv.pending_debits, t.id.actor, t.id.counter);
}

/// The out-of-order law: for every state, a validation whose counter is not
/// exactly the expected one (0 where none is recorded, the recorded one's
/// successor otherwise) is fatally out of order, once the earlier checks pass.
pub proof fn lemma_out_of_order(rv: ReplicaV, st: SignedTransferV)
    requires
        sig_verifies(
            st.transfer.id.actor,
            st.actor_signature,
            spec_encode_transfer(st.transfer),
        ),
        st.transfer.id.actor != st.transfer.to,
        st.transfer.amount != 0,
        has_wallet(rv.wallets, st.transfer.id.actor),
        !(match spec_pending(rv.pending_debits, st.transfer.id.actor) {
            None => st.transfer.id.counter == 0,
            Some(c) => st.transfer.id.counter == c + 1,
        }),
    ensures
        validate_verdict(rv, st) == Verdict::Fatal(Error::OutOfOrder),
{
}

/// The register-exactly-once law: a registration is accepted only with
/// exactly the sender ledger's next debit counter, and once the registered
/// event is applied, repeating the same registration is a non-sequential
/// rejection, not an error.
pub proof fn lemma_register_exactly_once(
    rv: ReplicaV,
    ev: TransferRegisteredV,
    past_key_check: bool,
)
    requires
        replica_state_wf(rv),
        register_verdict(rv, ev.debit_proof, past_key_check) == Verdict::Accept,
        apply_ok(rv, ReplicaEventV::TransferRegistered(ev)),
    ensures
        ev.debit_proof.signed_transfer.transfer.id.counter == spec_wallet(
            rv.wallets,
            ev.debit_proof.signed_transfer.transfer.id.actor,
        ).debits.len(),
        register_verdict(
            apply_v(rv, ReplicaEventV::TransferRegistered(ev)),
            ev.debit_proof,
            past_key_check,
        ) == Verdict::Reject(Rejection::NonSequential),
{
    let t = ev.debit_proof.signed_transfer.transfer;
    let i = wallet_idx(rv.wallets, t.id.actor);
    let w = spec_wallet(rv.wallets, t.id.actor);
    let rv2 = apply_v(rv, ReplicaEventV::TransferRegistered(ev));
    lemma_apply_preserves_wf(rv, ReplicaEventV::TransferRegistered(ev));
    assert(rv2.wallets[i] == with_debit(w, t));
    assert(rv2.wallets[i].id == t.id.actor);
    lemma_wallet_idx_at(rv2.wallets, i);
    assert(spec_wallet(rv2.wallets, t.id.actor) == with_debit(w, t));
    assert(with_debit(w, t).debits.len() == w.debits.len() + 1);
}

/// The credit idempotency law: once an accepted propagation is applied, the
/// same proof resolves to a no-op, and the recipient's balance equals the
/// balance before the one credit (zero for a fresh wallet) plus the amount
/// — applying the proof twice credits exactly once.
pub proof fn lemma_propagate_idempotent(
    rv: ReplicaV,
    ev: TransferPropagatedV,
    past_key: Option<Seq<u8>>,
)
    requires
        replica_state_wf(rv),
        receive_verdict(rv, ev.debit_proof, past_key) == Verdict::Accept,
        apply_ok(rv, ReplicaEventV::TransferPropagated(ev)),
    ensures
        ({
            let rv2 = apply_v(rv, ReplicaEventV::TransferPropagated(ev));
            let t = ev.debit_proof.signed_transfer.transfer;
            &&& receive_verdict(rv2, ev.debit_proof, past_key) == Verdict::NoChange
            &&& has_wallet(rv2.wallets, t.to)
            &&& wallet_balance(spec_wallet(rv2.wallets, t.to)) == (if has_wallet(
                rv.wallets,
                t.to,
            ) {
                wallet_balance(spec_wallet(rv.wallets, t.to))
            } else {
                0
            }) + t.amount
        }),
{
    let t = ev.debit_proof.signed_transfer.transfer;
    let rv2 = apply_v(rv, ReplicaEventV::TransferPropagated(ev));
    lemma_apply_preserves_wf(rv, ReplicaEventV::TransferPropagated(ev));
    if has_wallet(rv.wallets, t.to) {
        let i = wallet_idx(rv.wallets, t.to);
        let w = spec_wallet(rv.wallets, t.to);
        lemma_credit_preserves_wf(w, t);
        assert(rv2.wallets[i] == with_credit(w, t));
        assert(rv2.wallets[i].id == t.to);
        lemma_wallet_idx_at(rv2.wallets, i);
        assert(spec_wallet(rv2.wallets, t.to) == with_credit(w, t));
        assert(with_credit(w, t).credits[w.credits.len() as int] == t);
        assert(wallet_contains(with_credit(w, t), t.id));
    } else {
        let n = rv.wallets.len() as int;
        let w0 = crate::replica::empty_wallet(t.to);
        assert(rv2.wallets[n] == with_credit(w0, t));
        assert(rv2.wallets[n].id == t.to);
        lemma_wallet_idx_at(rv2.wallets, n);
        assert(spec_wallet(rv2.wallets, t.to) == with_credit(w0, t));
        assert(with_credit(w0, t).credits[0] == t);
        assert(wallet_contains(with_credit(w0, t), t.id));
        lemma_sum_push(w0.credits, t);
        assert(sum_amounts(w0.credits) == 0);
        assert(sum_amounts(w0.debits) == 0);
    }
}

/// The signature-first law: on every phase, a request whose signature no
/// admissible key verifies is fatally rejected with the signature-error
/// kind, whatever the rest of the payload — no other check is reached.
pub proof fn lemma_signature_checked_first(
    rv: ReplicaV,
    st: SignedTransferV,
    p: DebitAgreementProofV,
    past_key_check: bool,
    past_key: Option<Seq<u8>>,
)
    ensures
        !sig_verifies(st.transfer.id.actor, st.actor_signature, spec_encode_transfer(st.transfer))
            ==> validate_verdict(rv, st) == Verdict::Fatal(Error::InvalidSignature),
        (!sig_verifies(
            rv.peer_replicas.key,
            p.debiting_replicas_sig,
            spec_encode_signed_transfer(p.signed_transfer),
        ) && !past_key_check) ==> register_verdict(rv, p, past_key_check) == Verdict::Fatal(
            Error::InvalidSignature,
        ),
        propagation_key(rv, p, past_key) is None ==> receive_verdict(rv, p, past_key)
            == Verdict::Fatal(Error::InvalidSignature),
{
}

} // verus!

