use fiber_channel::ledger::{PendingTlcs, TlcState};
use fiber_channel::tlc::{
    AddTlcInfo, CommitmentNumbers, HashAlgorithm, RemoveTlcFulfill, RemoveTlcInfo, RemoveTlcReason,
    TLCId, TlcErrPacket, TlcKind,
};

fn add(id: TLCId, amount: u128, hash_byte: u8) -> AddTlcInfo {
    AddTlcInfo {
        channel_id: [7u8; 32],
        tlc_id: id,
        amount,
        payment_hash: [hash_byte; 32],
        expiry: 1_000,
        hash_algorithm: HashAlgorithm::CkbHash,
        onion_packet: None,
        shared_secret: [0u8; 32],
        created_at: CommitmentNumbers::new(),
        removed_at: None,
        payment_preimage: None,
        previous_tlc: None,
    }
}

fn remove(id: TLCId) -> TlcKind {
    TlcKind::RemoveTlc(RemoveTlcInfo {
        channel_id: [7u8; 32],
        tlc_id: id,
        reason: RemoveTlcReason::RemoveTlcFail(TlcErrPacket { onion_packet: vec![1, 2, 3] }),
    })
}

#[test]
fn commitment_numbers_flip_and_increment() {
    let mut n = CommitmentNumbers::new();
    assert_eq!((n.get_local(), n.get_remote()), (0, 0));
    n.increment_local();
    n.increment_local();
    n.increment_remote();
    let f = n.flip();
    assert_eq!((f.local, f.remote), (1, 2));
}

#[test]
fn tlc_id_flip_round_trip() {
    let id = TLCId::Offered(5);
    assert!(id.is_offered());
    assert_eq!(id.flip(), TLCId::Received(5));
    let mut m = id;
    m.flip_mut();
    m.flip_mut();
    assert_eq!(m, id);
    assert_eq!(TlcKind::AddTlc(add(TLCId::Received(9), 1, 1)).tlc_id_u64(), 9);
}

#[test]
fn htlc_type_byte_encodes_direction_and_algorithm() {
    let mut t = add(TLCId::Offered(0), 1, 1);
    assert_eq!(t.get_htlc_type(), 0);
    t.tlc_id = TLCId::Received(0);
    assert_eq!(t.get_htlc_type(), 1);
    t.hash_algorithm = HashAlgorithm::Sha256;
    assert_eq!(t.get_htlc_type(), 3);
    let mut h = add(TLCId::Offered(0), 1, 0);
    for (i, b) in h.payment_hash.iter_mut().enumerate() {
        *b = i as u8;
    }
    let short = h.get_hash();
    assert_eq!(short.to_vec(), (0u8..20).collect::<Vec<u8>>());
}

#[test]
fn pending_tlcs_commit_splits_staging_from_committed() {
    let mut p = PendingTlcs::new();
    p.push(TlcKind::AddTlc(add(TLCId::Offered(0), 10, 1)));
    p.push(TlcKind::AddTlc(add(TLCId::Offered(1), 20, 2)));
    assert_eq!(p.get_committed_tlcs().len(), 0);
    assert_eq!(p.get_staging_tlcs().len(), 2);
    let other = vec![TlcKind::AddTlc(add(TLCId::Received(0), 5, 3))];
    let staged = p.commit_tlcs(&other);
    assert_eq!(staged.len(), 2);
    assert_eq!(p.get_committed_tlcs().len(), 3);
    assert_eq!(p.get_staging_tlcs().len(), 0);
    // committing the same operations again adds nothing
    let again = p.commit_tlcs(&other);
    assert_eq!(again.len(), 0);
    assert_eq!(p.tlcs().len(), 3);
}

#[test]
fn pending_tlcs_drop_and_shrink() {
    let mut p = PendingTlcs::new();
    p.push(TlcKind::AddTlc(add(TLCId::Offered(0), 10, 1)));
    p.push(remove(TLCId::Offered(0)));
    assert!(p.is_tlc_present(&remove(TLCId::Offered(0))));
    p.drop_remove_tlc(&TLCId::Offered(0));
    assert_eq!(p.tlcs().len(), 1);
    assert!(!p.is_tlc_present(&remove(TLCId::Offered(0))));
    let reason = RemoveTlcReason::RemoveTlcFulfill(RemoveTlcFulfill { payment_preimage: [9u8; 32] });
    p.mark_removed(TLCId::Offered(0), CommitmentNumbers::new(), &reason);
    p.shrink_removed_tlc();
    assert_eq!(p.tlcs().len(), 0);
}

#[test]
fn tlc_state_lookup_by_direction() {
    let mut s = TlcState::new();
    s.add_local_tlc(TlcKind::AddTlc(add(TLCId::Offered(0), 10, 1)));
    s.increment_local_tlc_id();
    s.add_remote_tlc(TlcKind::AddTlc(add(TLCId::Received(0), 20, 2)));
    s.increment_remote_tlc_id();
    assert_eq!(s.get_next_offering(), 1);
    assert_eq!(s.get_next_received(), 1);
    assert_eq!(s.get(&TLCId::Offered(0)).map(|t| t.amount), Some(10));
    assert_eq!(s.get(&TLCId::Received(0)).map(|t| t.amount), Some(20));
    assert!(s.get(&TLCId::Received(1)).is_none());
}

#[test]
fn tlc_state_retry_queue() {
    let mut s = TlcState::new();
    let fail = || RemoveTlcReason::RemoveTlcFail(TlcErrPacket { onion_packet: vec![4] });
    s.set_tlc_pending_remove(TLCId::Received(1), fail());
    s.insert_relay_tlc_remove([3u8; 32], 2, fail());
    assert_eq!(s.get_pending_remove().len(), 2);
    let first = s.get_pending_remove().remove(0);
    s.remove_pending_remove_tlc(&first);
    let left = s.get_pending_remove();
    assert_eq!(left.len(), 1);
    assert!(matches!(left[0], fiber_channel::tlc::RetryableRemoveTlc::RelayRemoveTlc(_, 2, _)));
    s.set_waiting_ack(true);
    assert!(s.waiting_ack());
}

#[test]
fn views_agree_after_a_full_round() {
    let mut s = TlcState::new();
    s.add_local_tlc(TlcKind::AddTlc(add(TLCId::Offered(0), 10, 1)));
    s.add_remote_tlc(TlcKind::AddTlc(add(TLCId::Received(0), 20, 2)));
    // before the round each side's view holds only what it staged itself and what is committed
    assert_eq!(s.get_tlcs_for_local().len(), 1);
    assert_eq!(s.get_tlcs_for_remote().len(), 1);
    s.commit_remote_tlcs();
    s.commit_local_tlcs();
    let ids = |v: Vec<TlcKind>| {
        let mut ids: Vec<TLCId> = v.iter().map(|k| k.tlc_id()).collect();
        ids.sort();
        ids
    };
    assert_eq!(ids(s.get_tlcs_for_local()), ids(s.get_tlcs_for_remote()));
    assert_eq!(ids(s.get_tlcs_with(true)), vec![TLCId::Offered(0), TLCId::Received(0)]);
    assert_eq!(s.all_commited_tlcs().len(), 2);
    assert_eq!(s.all_tlcs().len(), 2);
    // a staged remove hides its TLC from the view of the side that staged it
    s.add_local_tlc(remove(TLCId::Received(0)));
    assert_eq!(ids(s.get_tlcs_for_local()), vec![TLCId::Offered(0)]);
    assert_eq!(ids(s.get_tlcs_for_remote()).len(), 2);
    let dup = vec![TlcKind::AddTlc(add(TLCId::Offered(3), 1, 1)), TlcKind::AddTlc(add(TLCId::Offered(3), 2, 1))];
    let filtered = TlcState::filter_add_tlcs(&dup);
    assert_eq!(filtered.len(), 1);
    assert_eq!(filtered[0].amount, 1);
}
