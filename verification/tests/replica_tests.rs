use sn_transfers::encoding::{encode_signed_transfer, encode_transfer};
use sn_transfers::replica::Replica;
use sn_transfers::types::{DebitAgreementProof, Error, GroupKeys, Outcome, Rejection,
    ReplicaEvent, SignedTransfer, Transfer, TransferId};
use threshold_crypto::{SecretKey, SecretKeySet};

struct Group {
    sks: SecretKeySet,
    keys: GroupKeys,
}

fn make_group() -> Group {
    let mut rng = rand::thread_rng();
    let sks = SecretKeySet::random(0, &mut rng);
    let pks = sks.public_keys();
    let keys = GroupKeys {
        set_bytes: bincode::serialize(&pks).unwrap(),
        key: pks.public_key().to_bytes().to_vec(),
    };
    Group { sks, keys }
}

fn make_replica(group: &Group) -> Replica {
    Replica::from_snapshot(
        group.sks.secret_key_share(0),
        0,
        group.keys.clone(),
        Vec::new(),
        Vec::new(),
        Vec::new(),
    )
}

struct Actor {
    sk: SecretKey,
    id: Vec<u8>,
}

fn make_actor() -> Actor {
    let sk = SecretKey::random();
    let id = sk.public_key().to_bytes().to_vec();
    Actor { sk, id }
}

fn signed_transfer(actor: &Actor, counter: u64, to: &[u8], amount: u64) -> SignedTransfer {
    let transfer = Transfer {
        id: TransferId { actor: actor.id.clone(), counter },
        to: to.to_vec(),
        amount,
    };
    let msg = encode_transfer(&transfer);
    let actor_signature = actor.sk.sign(&msg).to_bytes().to_vec();
    SignedTransfer { transfer, actor_signature }
}

fn proof_signed_by(group: &Group, st: SignedTransfer) -> DebitAgreementProof {
    let msg = encode_signed_transfer(&st);
    let share = group.sks.secret_key_share(0).sign(&msg);
    let sig = group
        .sks
        .public_keys()
        .combine_signatures(vec![(0usize, &share)])
        .unwrap();
    DebitAgreementProof {
        signed_transfer: st,
        debiting_replicas_sig: sig.to_bytes().to_vec(),
    }
}

fn expect_success<T>(r: Result<Outcome<T>, Error>) -> T {
    match r {
        Ok(Outcome::Success(ev)) => ev,
        Ok(Outcome::Rejected(rej)) => panic!("rejected: {:?}", rej),
        Ok(Outcome::NoChange) => panic!("unexpected no-change"),
        Err(e) => panic!("fatal: {:?}", e),
    }
}

/// A replica of `group` whose wallet `owner` was created by genesis with
/// `amount` units.
fn funded_replica(group: &Group, owner: &Actor, amount: u64) -> Replica {
    let mut replica = make_replica(group);
    let bootstrap = make_actor();
    let st = signed_transfer(&bootstrap, 0, &owner.id, amount);
    let proof = proof_signed_by(group, st);
    let ev = expect_success(replica.genesis(&proof, None));
    replica.apply(ReplicaEvent::TransferPropagated(ev)).unwrap();
    replica
}

#[test]
fn test_genesis_creates_money() {
    let group = make_group();
    let a = make_actor();
    let mut replica = make_replica(&group);
    assert_eq!(replica.balance(&a.id), None);
    let bootstrap = make_actor();
    let st = signed_transfer(&bootstrap, 0, &a.id, 1000);
    let proof = proof_signed_by(&group, st);
    let ev = expect_success(replica.genesis(&proof, None));
    assert_eq!(ev.crediting_replica_sig.index, 0);
    replica.apply(ReplicaEvent::TransferPropagated(ev)).unwrap();
    assert_eq!(replica.balance(&a.id), Some(1000));
    let credits = replica.credits_since(&a.id, 0).unwrap();
    assert_eq!(credits.len(), 1);
    assert_eq!(credits[0].amount, 1000);
    // Any second genesis attempt on the now non-empty state is fatal.
    let st2 = signed_transfer(&make_actor(), 0, &a.id, 5);
    let proof2 = proof_signed_by(&group, st2);
    assert!(matches!(replica.genesis(&proof2, None), Err(Error::InvalidOperation)));
}

#[test]
fn test_validate_pending_gate() {
    let group = make_group();
    let a = make_actor();
    let b = make_actor();
    let mut replica = funded_replica(&group, &a, 1000);
    // First validation must carry counter 0.
    let st0 = signed_transfer(&a, 0, &b.id, 400);
    let ev0 = expect_success(replica.validate(st0.clone()));
    assert_eq!(ev0.replica_signature.index, 0);
    assert_eq!(ev0.replicas.key, group.keys.key);
    replica.apply(ReplicaEvent::TransferValidated(ev0)).unwrap();
    // Re-validating counter 0 is now out of order.
    assert!(matches!(replica.validate(st0), Err(Error::OutOfOrder)));
    // Counter 1 continues the pending sequence; the balance check uses the
    // registered balance of 1000, unaffected by the pending debit.
    let st1 = signed_transfer(&a, 1, &b.id, 100);
    let ev1 = expect_success(replica.validate(st1));
    replica.apply(ReplicaEvent::TransferValidated(ev1)).unwrap();
    // A counter that skips ahead is out of order as well.
    let st9 = signed_transfer(&a, 9, &b.id, 1);
    assert!(matches!(replica.validate(st9), Err(Error::OutOfOrder)));
}

#[test]
fn test_register_decreases_balance() {
    let group = make_group();
    let a = make_actor();
    let b = make_actor();
    let mut replica = funded_replica(&group, &a, 1000);
    let st = signed_transfer(&a, 0, &b.id, 400);
    let ev = expect_success(replica.validate(st.clone()));
    replica.apply(ReplicaEvent::TransferValidated(ev)).unwrap();
    let proof = proof_signed_by(&group, st);
    let reg = expect_success(replica.register(&proof, false));
    replica.apply(ReplicaEvent::TransferRegistered(reg)).unwrap();
    assert_eq!(replica.balance(&a.id), Some(600));
    let debits = replica.debits_since(&a.id, 0).unwrap();
    assert_eq!(debits.len(), 1);
    assert_eq!(debits[0].amount, 400);
    // Repeating the same registration is a rejection, not a crash.
    assert!(matches!(
        replica.register(&proof, false),
        Ok(Outcome::Rejected(Rejection::NonSequential))
    ));
}

#[test]
fn test_propagate_idempotent() {
    let group = make_group();
    let a = make_actor();
    let b = make_actor();
    let mut replica = funded_replica(&group, &a, 1000);
    let st = signed_transfer(&a, 0, &b.id, 400);
    let proof = proof_signed_by(&group, st);
    let ev = expect_success(replica.receive_propagated(&proof, None));
    assert_eq!(ev.debiting_replicas, group.keys.key);
    replica.apply(ReplicaEvent::TransferPropagated(ev)).unwrap();
    assert_eq!(replica.balance(&b.id), Some(400));
    // The same proof a second time is a no-op, not an error.
    assert!(matches!(replica.receive_propagated(&proof, None), Ok(Outcome::NoChange)));
    assert_eq!(replica.balance(&b.id), Some(400));
    assert_eq!(replica.credits_since(&b.id, 0).unwrap().len(), 1);
}

#[test]
fn test_zero_amount_rejected() {
    let group = make_group();
    let a = make_actor();
    let b = make_actor();
    let replica = funded_replica(&group, &a, 1000);
    let st = signed_transfer(&a, 0, &b.id, 0);
    assert!(matches!(
        replica.validate(st),
        Ok(Outcome::Rejected(Rejection::ZeroValue))
    ));
    assert_eq!(replica.balance(&a.id), Some(1000));
}

#[test]
fn test_self_transfer_rejected() {
    let group = make_group();
    let a = make_actor();
    let replica = funded_replica(&group, &a, 1000);
    let st = signed_transfer(&a, 0, &a.id, 10);
    assert!(matches!(
        replica.validate(st),
        Ok(Outcome::Rejected(Rejection::SelfTransfer))
    ));
}

#[test]
fn test_bad_signature_fatal_on_every_phase() {
    let group = make_group();
    let a = make_actor();
    let b = make_actor();
    let replica = funded_replica(&group, &a, 1000);
    // An otherwise perfectly valid transfer with a tampered signature.
    let mut st = signed_transfer(&a, 0, &b.id, 400);
    st.actor_signature[0] ^= 1;
    assert!(matches!(replica.validate(st.clone()), Err(Error::InvalidSignature)));
    // A proof whose aggregated signature no known key verifies.
    let foreign = make_group();
    let proof = proof_signed_by(&foreign, signed_transfer(&a, 0, &b.id, 400));
    assert!(matches!(replica.register(&proof, false), Err(Error::InvalidSignature)));
    assert!(matches!(replica.receive_propagated(&proof, None), Err(Error::InvalidSignature)));
}

#[test]
fn test_no_such_sender() {
    let group = make_group();
    let a = make_actor();
    let stranger = make_actor();
    let b = make_actor();
    let replica = funded_replica(&group, &a, 1000);
    let st = signed_transfer(&stranger, 0, &b.id, 1);
    assert!(matches!(replica.validate(st), Err(Error::NoSuchSender)));
    let proof = proof_signed_by(&group, signed_transfer(&stranger, 0, &b.id, 1));
    assert!(matches!(replica.register(&proof, false), Err(Error::NoSuchSender)));
}

#[test]
fn test_insufficient_balance() {
    let group = make_group();
    let a = make_actor();
    let b = make_actor();
    let replica = funded_replica(&group, &a, 1000);
    let st = signed_transfer(&a, 0, &b.id, 1001);
    assert!(matches!(replica.validate(st), Err(Error::InsufficientBalance)));
}

#[test]
fn test_add_known_group() {
    let group = make_group();
    let foreign = make_group();
    let mut replica = make_replica(&group);
    let ev = expect_success(replica.add_known_group(foreign.keys.clone()));
    assert_eq!(ev.group.key, foreign.keys.key);
    replica.apply(ReplicaEvent::KnownGroupAdded(ev)).unwrap();
    assert!(matches!(
        replica.add_known_group(foreign.keys.clone()),
        Err(Error::DataExists)
    ));
}

#[test]
fn test_foreign_group_credit() {
    let group = make_group();
    let foreign = make_group();
    let a = make_actor();
    let b = make_actor();
    let mut replica = funded_replica(&group, &a, 1000);
    let ev = expect_success(replica.add_known_group(foreign.keys.clone()));
    replica.apply(ReplicaEvent::KnownGroupAdded(ev)).unwrap();
    // A proof aggregated by the foreign group's key resolves to that key.
    let proof = proof_signed_by(&foreign, signed_transfer(&a, 0, &b.id, 250));
    let ev = expect_success(replica.receive_propagated(&proof, None));
    assert_eq!(ev.debiting_replicas, foreign.keys.key);
    replica.apply(ReplicaEvent::TransferPropagated(ev)).unwrap();
    assert_eq!(replica.balance(&b.id), Some(250));
}

#[test]
fn test_register_with_past_key_check() {
    let group = make_group();
    let old_group = make_group();
    let a = make_actor();
    let b = make_actor();
    let mut replica = funded_replica(&group, &a, 1000);
    let st = signed_transfer(&a, 0, &b.id, 400);
    let ev = expect_success(replica.validate(st.clone()));
    replica.apply(ReplicaEvent::TransferValidated(ev)).unwrap();
    // A proof aggregated under a past epoch's key: the group's current key
    // does not verify it, but the caller's past-epoch check admits it.
    let proof = proof_signed_by(&old_group, st);
    assert!(matches!(replica.register(&proof, false), Err(Error::InvalidSignature)));
    let reg = expect_success(replica.register(&proof, true));
    let mut replica2 = replica;
    replica2.apply(ReplicaEvent::TransferRegistered(reg)).unwrap();
    assert_eq!(replica2.balance(&a.id), Some(600));
}

#[test]
fn test_receive_with_past_key_attribution() {
    let group = make_group();
    let old_group = make_group();
    let a = make_actor();
    let b = make_actor();
    let replica = funded_replica(&group, &a, 1000);
    let proof = proof_signed_by(&old_group, signed_transfer(&a, 0, &b.id, 5));
    // The caller recognizes the past key and supplies it for attribution.
    let ev = expect_success(replica.receive_propagated(&proof, Some(old_group.keys.key.clone())));
    assert_eq!(ev.debiting_replicas, old_group.keys.key);
}

#[test]
fn test_encoding_exact_bytes() {
    let t = Transfer {
        id: TransferId { actor: vec![1, 2], counter: 3 },
        to: vec![4],
        amount: 5,
    };
    let expected: Vec<u8> = vec![
        2, 0, 0, 0, 0, 0, 0, 0, // length of the actor key
        1, 2, // actor key bytes
        3, 0, 0, 0, 0, 0, 0, 0, // counter
        1, 0, 0, 0, 0, 0, 0, 0, // length of the recipient key
        4, // recipient key bytes
        5, 0, 0, 0, 0, 0, 0, 0, // amount
    ];
    assert_eq!(encode_transfer(&t), expected);
    let st = SignedTransfer { transfer: t, actor_signature: vec![9, 9] };
    let mut expected_st = expected.clone();
    expected_st.extend_from_slice(&[2, 0, 0, 0, 0, 0, 0, 0, 9, 9]);
    assert_eq!(encode_signed_transfer(&st), expected_st);
}

#[test]
fn test_encoding_large_values() {
    let t = Transfer {
        id: TransferId { actor: vec![], counter: u64::MAX },
        to: vec![],
        amount: 0x0102030405060708,
    };
    let encoded = encode_transfer(&t);
    let expected: Vec<u8> = vec![
        0, 0, 0, 0, 0, 0, 0, 0, // empty actor key
        255, 255, 255, 255, 255, 255, 255, 255, // counter
        0, 0, 0, 0, 0, 0, 0, 0, // empty recipient key
        8, 7, 6, 5, 4, 3, 2, 1, // amount, little endian
    ];
    assert_eq!(encoded, expected);
}

#[test]
fn test_queries_since_index() {
    let group = make_group();
    let a = make_actor();
    let replica = funded_replica(&group, &a, 1000);
    assert_eq!(replica.credits_since(&a.id, 0).unwrap().len(), 1);
    assert_eq!(replica.credits_since(&a.id, 1).unwrap().len(), 0);
    assert_eq!(replica.debits_since(&a.id, 0).unwrap().len(), 0);
    let stranger = make_actor();
    assert!(replica.credits_since(&stranger.id, 0).is_none());
    assert!(replica.debits_since(&stranger.id, 0).is_none());
}

#[test]
fn test_replicas_pk_set() {
    let group = make_group();
    let replica = make_replica(&group);
    let keys = replica.replicas_pk_set().unwrap();
    assert_eq!(keys.key, group.keys.key);
    assert_eq!(keys.set_bytes, group.keys.set_bytes);
}

#[test]
fn test_test_validate_transfer() {
    let group = make_group();
    let a = make_actor();
    let b = make_actor();
    let replica = make_replica(&group);
    // Money from thin air: no sender wallet, no balance check, and the
    // signature is not verified either.
    let st = signed_transfer(&a, 0, &b.id, 77);
    let ev = expect_success(replica.test_validate_transfer(st));
    assert_eq!(ev.replica_signature.index, 0);
    let self_st = signed_transfer(&a, 0, &a.id, 77);
    assert!(matches!(
        replica.test_validate_transfer(self_st),
        Ok(Outcome::Rejected(Rejection::SelfTransfer))
    ));
}

#[test]
fn test_from_history_replays_to_same_state() {
    let group = make_group();
    let a = make_actor();
    let b = make_actor();
    let mut replica = make_replica(&group);
    let mut history: Vec<ReplicaEvent> = Vec::new();

    let bootstrap = make_actor();
    let genesis_proof = proof_signed_by(&group, signed_transfer(&bootstrap, 0, &a.id, 1000));
    let ev = expect_success(replica.genesis(&genesis_proof, None));
    history.push(ReplicaEvent::TransferPropagated(ev.clone()));
    replica.apply(ReplicaEvent::TransferPropagated(ev)).unwrap();

    let st = signed_transfer(&a, 0, &b.id, 400);
    let ev = expect_success(replica.validate(st.clone()));
    history.push(ReplicaEvent::TransferValidated(ev.clone()));
    replica.apply(ReplicaEvent::TransferValidated(ev)).unwrap();

    let proof = proof_signed_by(&group, st);
    let ev = expect_success(replica.register(&proof, false));
    history.push(ReplicaEvent::TransferRegistered(ev.clone()));
    replica.apply(ReplicaEvent::TransferRegistered(ev)).unwrap();

    let recovered = Replica::from_history(
        group.sks.secret_key_share(0),
        0,
        group.keys.clone(),
        history,
    )
    .unwrap();
    assert_eq!(recovered.balance(&a.id), replica.balance(&a.id));
    assert_eq!(recovered.balance(&a.id), Some(600));
    assert_eq!(recovered.debits_since(&a.id, 0).unwrap().len(), 1);
}

#[test]
fn test_simulated_payouts() {
    let group = make_group();
    let a = make_actor();
    let b = make_actor();
    let mut replica = make_replica(&group);
    let credit = Transfer {
        id: TransferId { actor: b.id.clone(), counter: 0 },
        to: a.id.clone(),
        amount: 50,
    };
    replica.credit_without_proof(credit);
    assert_eq!(replica.balance(&a.id), Some(50));
    let debit = Transfer {
        id: TransferId { actor: a.id.clone(), counter: 0 },
        to: b.id.clone(),
        amount: 20,
    };
    replica.debit_without_proof(debit);
    assert_eq!(replica.balance(&a.id), Some(30));
}
