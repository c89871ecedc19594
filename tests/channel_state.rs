use fiber_channel::channel::{
    calculate_tlc_forward_fee, check_peeled_tlc, check_tlc_expiry, ChannelConstraints, ChannelState,
    InvoiceStatus, PeeledHop, PeeledTlcAction, ProcessingChannelError, PublicChannelInfo, MAX_PAYMENT_TLC_EXPIRY_LIMIT,
    MIN_TLC_EXPIRY_DELTA,
};
use fiber_channel::crypto::{ChannelBasePublicKeys, InMemorySigner};
use fiber_channel::ledger::TlcState;
use fiber_channel::state::{
    get_funding_and_reserved_amount, reestablish_actions, AddTlc, AddTlcCommand, RemoveTlc, RemoveTlcCommand, ChannelActorState, LocalReestablishAction, RemoteReestablishAction,
    ShutdownInfo, UpdateCommand,
};
use fiber_channel::tlc::{
    RemoveTlcInfo, TlcKind, CommitmentNumbers, HashAlgorithm, RemoveTlcFulfill, RemoveTlcReason, TLCId, TlcErrPacket,
};

const RESERVE: u64 = 6_200_000_000;

fn key(b: u8) -> [u8; 33] {
    let mut k = [b; 33];
    k[0] = 2;
    k
}

fn channel(to_local: u128, to_remote: u128) -> ChannelActorState {
    ChannelActorState {
        state: ChannelState::ChannelReady(),
        public_channel_info: None,
        local_pubkey: key(1),
        remote_pubkey: key(2),
        id: [9u8; 32],
        funding_udt_type_script: None,
        is_acceptor: false,
        to_local_amount: to_local,
        to_remote_amount: to_remote,
        local_reserved_ckb_amount: RESERVE,
        remote_reserved_ckb_amount: RESERVE,
        commitment_fee_rate: 1_000,
        commitment_delay_epoch: 6,
        funding_fee_rate: 1_000,
        signer: InMemorySigner {
            funding_key: [1u8; 32],
            tlc_base_key: [2u8; 32],
            musig2_base_nonce: [3u8; 32],
            commitment_seed: [4u8; 32],
        },
        local_channel_public_keys: ChannelBasePublicKeys { funding_pubkey: key(3), tlc_base_key: key(4) },
        commitment_numbers: CommitmentNumbers::new(),
        local_constraints: ChannelConstraints::default(),
        remote_constraints: ChannelConstraints::default(),
        tlc_state: TlcState::new(),
        remote_shutdown_script: Some(vec![1, 2, 3]),
        local_shutdown_script: vec![4, 5, 6],
        last_used_nonce_in_commitment_signed: None,
        remote_nonces: Vec::new(),
        remote_commitment_points: Vec::new(),
        remote_channel_public_keys: Some(ChannelBasePublicKeys { funding_pubkey: key(5), tlc_base_key: key(6) }),
        local_shutdown_info: None,
        remote_shutdown_info: None,
        reestablishing: false,
        created_at: 0,
    }
}

fn command(amount: u128, payment_hash: [u8; 32]) -> AddTlcCommand {
    AddTlcCommand {
        amount,
        payment_hash,
        expiry: 100_000,
        hash_algorithm: HashAlgorithm::CkbHash,
        onion_packet: None,
        shared_secret: [0u8; 32],
        previous_tlc: None,
    }
}

fn fulfill(preimage: [u8; 32]) -> RemoveTlcReason {
    RemoveTlcReason::RemoveTlcFulfill(RemoveTlcFulfill { payment_preimage: preimage })
}

#[test]
fn direct_payment_moves_balance_on_fulfill() {
    let preimage = [42u8; 32];
    let hash = HashAlgorithm::CkbHash.hash(&preimage);
    let mut a = channel(100_000, 0);
    let id = a.add_offered_tlc(command(10_000, hash)).unwrap();
    assert_eq!(id, 0);
    assert_eq!(a.get_next_offering_tlc_id(), 1);
    assert_eq!(a.get_offered_tlc_balance(), 10_000);
    // the add itself moves nothing
    assert_eq!((a.get_local_balance(), a.get_remote_balance()), (100_000, 0));
    let tlc = a.remove_tlc_with_reason(TLCId::Offered(0), &fulfill(preimage)).unwrap();
    assert_eq!(tlc.amount, 10_000);
    assert_eq!((a.get_local_balance(), a.get_remote_balance()), (90_000, 10_000));
    assert_eq!(a.get_offered_tlc_balance(), 0);
    assert!(!a.any_tlc_pending());
}

#[test]
fn failed_tlc_moves_nothing() {
    let mut a = channel(100_000, 0);
    a.add_offered_tlc(command(10_000, [1u8; 32])).unwrap();
    let fail = RemoveTlcReason::RemoveTlcFail(TlcErrPacket { onion_packet: vec![7] });
    a.remove_tlc_with_reason(TLCId::Offered(0), &fail).unwrap();
    assert_eq!((a.get_local_balance(), a.get_remote_balance()), (100_000, 0));
}

#[test]
fn repeated_remove_is_rejected_without_balance_change() {
    let preimage = [5u8; 32];
    let hash = HashAlgorithm::CkbHash.hash(&preimage);
    let mut a = channel(50_000, 50_000);
    a.add_offered_tlc(command(1_000, hash)).unwrap();
    a.remove_tlc_with_reason(TLCId::Offered(0), &fulfill(preimage)).unwrap();
    let before = (a.get_local_balance(), a.get_remote_balance());
    assert!(matches!(
        a.remove_tlc_with_reason(TLCId::Offered(0), &fulfill(preimage)),
        Err(ProcessingChannelError::RepeatedProcessing(_))
    ));
    // the same TLC for another reason is an invalid request
    let fail = RemoveTlcReason::RemoveTlcFail(TlcErrPacket { onion_packet: vec![] });
    assert!(matches!(
        a.remove_tlc_with_reason(TLCId::Offered(0), &fail),
        Err(ProcessingChannelError::InvalidParameter(_))
    ));
    assert_eq!((a.get_local_balance(), a.get_remote_balance()), before);
    assert_eq!(before, (49_000, 51_000));
}

#[test]
fn wrong_preimage_is_rejected() {
    let mut a = channel(50_000, 0);
    a.add_offered_tlc(command(1_000, [3u8; 32])).unwrap();
    let r = a.remove_tlc_with_reason(TLCId::Offered(0), &fulfill([4u8; 32]));
    assert!(matches!(r, Err(ProcessingChannelError::FinalIncorrectPreimage)));
    assert!(matches!(
        a.check_remove_tlc_with_reason(TLCId::Offered(0), &fulfill([4u8; 32])),
        Err(ProcessingChannelError::FinalIncorrectPreimage)
    ));
    assert!(matches!(
        a.remove_tlc_with_reason(TLCId::Offered(1), &fulfill([4u8; 32])),
        Err(ProcessingChannelError::InvalidParameter(_))
    ));
    assert_eq!(a.get_local_balance(), 50_000);
}

#[test]
fn duplicate_payment_hash_and_overdraft_are_rejected() {
    let mut a = channel(10_000, 5_000);
    a.add_offered_tlc(command(6_000, [1u8; 32])).unwrap();
    assert!(matches!(
        a.add_offered_tlc(command(1, [1u8; 32])),
        Err(ProcessingChannelError::RepeatedProcessing(_))
    ));
    assert!(matches!(
        a.add_offered_tlc(command(4_001, [2u8; 32])),
        Err(ProcessingChannelError::TlcAmountExceedLimit)
    ));
    assert_eq!(a.add_offered_tlc(command(4_000, [2u8; 32])).unwrap(), 1);
}

#[test]
fn received_tlc_ids_must_be_consecutive() {
    let mut a = channel(0, 10_000);
    let msg = |id: u64, h: u8| AddTlc {
        channel_id: [9u8; 32],
        tlc_id: id,
        amount: 100,
        payment_hash: [h; 32],
        expiry: 1,
        hash_algorithm: HashAlgorithm::Sha256,
        onion_packet: None,
    };
    assert!(matches!(a.add_received_tlc(msg(1, 1)), Err(ProcessingChannelError::InvalidParameter(_))));
    a.add_received_tlc(msg(0, 1)).unwrap();
    a.add_received_tlc(msg(1, 2)).unwrap();
    assert_eq!(a.get_next_received_tlc_id(), 2);
    assert_eq!(a.get_received_tlc_balance(), 200);
    assert_eq!(a.get_received_tlc(1).map(|t| t.amount), Some(100));
}

#[test]
fn tlc_limits() {
    let mut a = channel(1_000_000, 0);
    a.local_constraints = ChannelConstraints::new(1_500, 2);
    assert!(matches!(a.check_tlc_limits(0, true), Err(ProcessingChannelError::TlcAmountIsTooLow)));
    assert!(matches!(
        a.check_tlc_limits(1_501, true),
        Err(ProcessingChannelError::TlcValueInflightExceedLimit)
    ));
    a.add_offered_tlc(command(1_000, [1u8; 32])).unwrap();
    a.add_offered_tlc(command(100, [2u8; 32])).unwrap();
    assert!(matches!(a.check_tlc_limits(1, true), Err(ProcessingChannelError::TlcNumberExceedLimit)));
    assert!(a.check_tlc_limits(1, false).is_ok());
    a.tlc_state.set_waiting_ack(true);
    assert!(matches!(a.check_for_tlc_update(Some(1), true, false), Err(ProcessingChannelError::WaitingTlcAck)));
    a.tlc_state.set_waiting_ack(false);
    a.update_state(ChannelState::ShuttingDown(1));
    assert!(matches!(a.check_for_tlc_update(Some(1), false, false), Err(ProcessingChannelError::InvalidState(_))));
    assert!(a.check_for_tlc_update(None, false, false).is_ok());
}

#[test]
fn commitment_round_advances_numbers_and_clears_ack() {
    let preimage = [8u8; 32];
    let hash = HashAlgorithm::CkbHash.hash(&preimage);
    let mut b = channel(0, 100_000);
    b.add_received_tlc(AddTlc {
        channel_id: [9u8; 32],
        tlc_id: 0,
        amount: 10_000,
        payment_hash: hash,
        expiry: 1,
        hash_algorithm: HashAlgorithm::CkbHash,
        onion_packet: None,
    })
    .unwrap();
    let staged = b.apply_commitment_signed([1u8; 66]);
    assert_eq!(staged.len(), 1);
    assert_eq!(b.get_remote_commitment_number(), 1);
    b.tlc_state.set_waiting_ack(true);
    let skipped = b.apply_revoke_and_ack(key(7));
    assert_eq!(skipped, 0);
    assert_eq!(b.get_local_commitment_number(), 1);
    assert!(!b.tlc_state.waiting_ack());
    assert_eq!(b.get_remote_commitment_point(1), Some(key(7)));
    assert_eq!(b.get_remote_commitment_point(0), None);
    b.remove_tlc_with_reason(TLCId::Received(0), &fulfill(preimage)).unwrap();
    assert_eq!((b.get_local_balance(), b.get_remote_balance()), (10_000, 90_000));
}

#[test]
fn remote_nonces_keep_two() {
    let mut a = channel(0, 0);
    assert!(a.get_remote_nonce().is_none());
    a.save_remote_nonce([1u8; 66]);
    assert_eq!(a.get_remote_nonce(), Some([1u8; 66]));
    a.save_remote_nonce([2u8; 66]);
    a.save_remote_nonce([3u8; 66]);
    assert_eq!(a.remote_nonces.len(), 2);
    assert_eq!(a.remote_nonces[0].1, [2u8; 66]);
    a.increment_remote_commitment_number();
    assert_eq!(a.get_remote_nonce(), Some([3u8; 66]));
    a.save_remote_nonce_for_raa();
    assert_eq!(a.take_remote_nonce_for_raa(), Some([3u8; 66]));
    assert_eq!(a.take_remote_nonce_for_raa(), None);
}

#[test]
fn commitment_point_window_keeps_live_tlc_points() {
    let mut a = channel(1_000_000, 0);
    a.local_constraints = ChannelConstraints::new(u128::MAX, 2);
    a.add_offered_tlc(command(10, [1u8; 32])).unwrap();
    for n in 0..3u8 {
        a.append_remote_commitment_point(key(10 + n));
        a.increment_local_commitment_number();
    }
    // the live tlc was created at remote number 0, so every point is kept
    assert_eq!(a.remote_commitment_points.len(), 3);
    a.remove_tlc_with_reason(TLCId::Offered(0), &RemoveTlcReason::RemoveTlcFail(TlcErrPacket { onion_packet: vec![] }))
        .unwrap();
    a.increment_remote_commitment_number();
    a.add_offered_tlc(command(10, [2u8; 32])).unwrap();
    a.append_remote_commitment_point(key(20));
    // four points exceed the window of three; those below remote number 1 go
    assert!(a.remote_commitment_points.iter().all(|(n, _)| *n >= 1));
    assert!(a.remote_commitment_points.len() <= 3);
}

#[test]
fn cooperative_close_outputs_cover_capacity() {
    let a = channel(90_000, 10_000);
    let (local, remote) = a.shutdown_output_capacities(1_200, 0).unwrap();
    assert_eq!(local, 90_000 + RESERVE as u128 - 1_200);
    assert_eq!(remote, 10_000 + RESERVE as u128);
    assert_eq!(local + remote + 1_200, a.get_total_ckb_amount());
    assert!(a.shutdown_output_capacities(u64::MAX, 0).is_none());
    assert_eq!(a.revocation_output_capacity(500), Some(a.get_total_ckb_amount() - 500));
    let mut udt = channel(90_000, 10_000);
    udt.funding_udt_type_script = Some(vec![1]);
    assert_eq!(udt.shutdown_output_capacities(100, 100), Some((RESERVE as u128 - 100, RESERVE as u128 - 100)));
}

#[test]
fn auto_accept_shutdown_and_fee_checks() {
    let mut b = channel(10_000, 90_000);
    assert!(!b.check_valid_to_auto_accept_shutdown(100, Some(1_000)));
    b.remote_shutdown_info = Some(ShutdownInfo { close_script: vec![1], fee_rate: 1_200, signature: None });
    assert!(b.check_valid_to_auto_accept_shutdown(100, Some(1_000)));
    assert!(!b.check_valid_to_auto_accept_shutdown(100, None));
    assert!(!b.check_valid_to_auto_accept_shutdown(90_000 + RESERVE, Some(1)));
    assert!(matches!(b.check_shutdown_fee_rate(999, 1, Some(1)), Err(ProcessingChannelError::InvalidParameter(_))));
    assert!(matches!(b.check_shutdown_fee_rate(1_000, 1, None), Err(ProcessingChannelError::CapacityError(_))));
    assert!(b.check_shutdown_fee_rate(1_000, 1, Some(1)).is_ok());
}

#[test]
fn musig2_order_and_tx_signatures_order() {
    let a = channel(5, 10);
    assert!(a.should_local_go_first_in_musig2());
    assert_eq!(a.order_things_for_musig2(1, 2), [1, 2]);
    assert!(a.should_local_send_tx_signatures_first());
    let b = channel(10, 5);
    assert!(!b.should_local_send_tx_signatures_first());
    assert!(a.local_is_node1());
}

#[test]
fn reestablish_decisions() {
    // we sent CommitmentSigned #8 and missed the RevokeAndAck: wait for its replay
    let (local, remote) = reestablish_actions(8, 5, 5, 7);
    assert_eq!(local, LocalReestablishAction::AwaitRevokeAndAck);
    assert_eq!(remote, RemoteReestablishAction::InSync);
    let (local, remote) = reestablish_actions(7, 6, 5, 7);
    assert_eq!(local, LocalReestablishAction::ResendFrom(7));
    assert_eq!(remote, RemoteReestablishAction::ResendRevokeAndAck(5));
    let (local, remote) = reestablish_actions(3, 9, 1, 9);
    assert_eq!(local, LocalReestablishAction::Ignore);
    assert_eq!(remote, RemoteReestablishAction::Ignore);
}

#[test]
fn update_command_on_public_channel() {
    let mut a = channel(0, 0);
    let cmd = UpdateCommand {
        enabled: Some(false),
        tlc_expiry_delta: None,
        tlc_minimum_value: Some(5),
        tlc_fee_proportional_millionths: None,
    };
    assert!(matches!(a.apply_update_command(cmd), Err(ProcessingChannelError::InvalidState(_))));
    a.public_channel_info = Some(PublicChannelInfo::new(0, MIN_TLC_EXPIRY_DELTA, 1_000));
    assert_eq!(a.apply_update_command(cmd).unwrap(), true);
    assert_eq!(a.get_our_enabled(), Some(false));
    assert_eq!(a.get_our_tlc_min_value(), Some(5));
    assert_eq!(a.apply_update_command(cmd).unwrap(), false);
    let bad = UpdateCommand { tlc_expiry_delta: Some(1), ..cmd };
    assert!(matches!(a.apply_update_command(bad), Err(ProcessingChannelError::InvalidParameter(_))));
    assert!(a.update_our_tlc_fee_proportional_millionths(7));
    assert_eq!(a.get_our_tlc_fee_proportional_millionths(), Some(7));
    assert!(!a.update_our_tlc_expiry_delta(MIN_TLC_EXPIRY_DELTA));
}

#[test]
fn forward_fee_rounds_up() {
    assert_eq!(calculate_tlc_forward_fee(60_000, 1_000), Some(60));
    assert_eq!(calculate_tlc_forward_fee(1, 1), Some(1));
    assert_eq!(calculate_tlc_forward_fee(1_000_000, 1), Some(1));
    assert_eq!(calculate_tlc_forward_fee(0, 5), Some(0));
    assert_eq!(calculate_tlc_forward_fee(u128::MAX, 2), None);
}

#[test]
fn intermediate_hop_fee_check() {
    let info = PublicChannelInfo::new(0, 40, 1_000);
    let now = 1_000;
    let hop = PeeledHop { is_last: false, amount: 60_000, expiry: now + 60, payment_preimage: None };
    let r = check_peeled_tlc(60_000, now + 100, &[0u8; 32], HashAlgorithm::CkbHash, &hop, None, None, Some(info), now);
    assert!(matches!(r, Err(ProcessingChannelError::TlcForwardFeeIsTooLow)));
    let r = check_peeled_tlc(60_060, now + 100, &[0u8; 32], HashAlgorithm::CkbHash, &hop, None, None, Some(info), now);
    assert!(matches!(r, Ok(PeeledTlcAction::Forward)));
    let r = check_peeled_tlc(60_060, now + 99, &[0u8; 32], HashAlgorithm::CkbHash, &hop, None, None, Some(info), now);
    assert!(matches!(r, Err(ProcessingChannelError::IncorrectTlcExpiry)));
    let low = PublicChannelInfo::new(70_000, 40, 1_000);
    let r = check_peeled_tlc(60_060, now + 100, &[0u8; 32], HashAlgorithm::CkbHash, &hop, None, None, Some(low), now);
    assert!(matches!(r, Err(ProcessingChannelError::TlcAmountIsTooLow)));
    let r = check_peeled_tlc(60_060, now + 100, &[0u8; 32], HashAlgorithm::CkbHash, &hop, None, None, None, now);
    assert!(matches!(r, Err(ProcessingChannelError::InvalidState(_))));
}

#[test]
fn final_hop_checks() {
    let preimage = [11u8; 32];
    let hash = HashAlgorithm::Sha256.hash(&preimage);
    let now = 0;
    let expiry = MIN_TLC_EXPIRY_DELTA + 10;
    let hop = PeeledHop { is_last: true, amount: 500, expiry: 10, payment_preimage: None };
    let check = |amount: u128, expiry: u64, invoice: Option<InvoiceStatus>, pre: Option<[u8; 32]>| {
        check_peeled_tlc(amount, expiry, &hash, HashAlgorithm::Sha256, &hop, invoice, pre, None, now)
    };
    assert!(matches!(check(499, expiry, None, Some(preimage)), Err(ProcessingChannelError::FinalIncorrectHTLCAmount)));
    assert!(matches!(check(500, 9, None, Some(preimage)), Err(ProcessingChannelError::IncorrectFinalTlcExpiry)));
    assert!(matches!(check(500, 11, None, Some(preimage)), Err(ProcessingChannelError::TlcExpirySoon)));
    assert!(matches!(
        check(500, expiry, Some(InvoiceStatus::Cancelled), Some(preimage)),
        Err(ProcessingChannelError::FinalInvoiceInvalid(InvoiceStatus::Cancelled))
    ));
    assert!(matches!(check(500, expiry, Some(InvoiceStatus::Open), None), Err(ProcessingChannelError::FinalIncorrectPaymentHash)));
    assert!(matches!(check(500, expiry, None, Some([12u8; 32])), Err(ProcessingChannelError::FinalIncorrectPreimage)));
    assert!(matches!(check(500, expiry, Some(InvoiceStatus::Open), Some(preimage)), Ok(PeeledTlcAction::Settle(p)) if p == preimage));
}

#[test]
fn tlc_expiry_window() {
    assert!(matches!(check_tlc_expiry(10, 10), Err(ProcessingChannelError::TlcExpirySoon)));
    assert!(matches!(check_tlc_expiry(11, 10), Err(ProcessingChannelError::TlcExpirySoon)));
    assert!(matches!(
        check_tlc_expiry(9 + MIN_TLC_EXPIRY_DELTA, 10),
        Err(ProcessingChannelError::TlcExpirySoon)
    ));
    assert!(check_tlc_expiry(10 + MIN_TLC_EXPIRY_DELTA, 10).is_ok());
    assert!(matches!(
        check_tlc_expiry(10 + MAX_PAYMENT_TLC_EXPIRY_LIMIT, 10),
        Err(ProcessingChannelError::TlcExpiryTooFar)
    ));
    assert!(check_tlc_expiry(9 + MAX_PAYMENT_TLC_EXPIRY_LIMIT, 10).is_ok());
}

#[test]
fn channel_state_and_constraints() {
    assert!(ChannelState::Closed(1).is_closed());
    assert!(!ChannelState::ChannelReady().is_closed());
    let c = ChannelConstraints::default();
    assert_eq!((c.max_tlc_value_in_flight, c.max_tlc_number_in_flight), (u128::MAX, 30));
    let e = ProcessingChannelError::TlcExpirySoon.without_shared_secret();
    assert_eq!(e.shared_secret, [0u8; 32]);
    let mut a = channel(0, 0);
    a.update_state(ChannelState::Closed(2));
    assert!(a.is_closed());
}

#[test]
fn queued_removes_wait_for_the_round() {
    let preimage = [21u8; 32];
    let hash = HashAlgorithm::CkbHash.hash(&preimage);
    let mut b = channel(0, 100_000);
    b.add_received_tlc(AddTlc {
        channel_id: [9u8; 32],
        tlc_id: 0,
        amount: 3_000,
        payment_hash: hash,
        expiry: 1,
        hash_algorithm: HashAlgorithm::CkbHash,
        onion_packet: None,
    })
    .unwrap();
    assert!(matches!(
        b.queue_local_remove(RemoveTlcCommand { id: 0, reason: fulfill([1u8; 32]) }),
        Err(ProcessingChannelError::FinalIncorrectPreimage)
    ));
    b.queue_local_remove(RemoveTlcCommand { id: 0, reason: fulfill(preimage) }).unwrap();
    assert!(b.tlc_state.waiting_ack());
    // queued, not applied: balances stay until the peer's RevokeAndAck
    assert_eq!((b.get_local_balance(), b.get_remote_balance()), (0, 100_000));
    assert!(matches!(
        b.queue_local_remove(RemoveTlcCommand { id: 0, reason: fulfill(preimage) }),
        Err(ProcessingChannelError::WaitingTlcAck)
    ));
    b.tlc_state.set_waiting_ack(false);
    assert!(matches!(
        b.queue_local_remove(RemoveTlcCommand { id: 0, reason: fulfill(preimage) }),
        Err(ProcessingChannelError::RepeatedProcessing(_))
    ));
    let skipped = b.apply_revoke_and_ack(key(8));
    assert_eq!(skipped, 0);
    assert_eq!((b.get_local_balance(), b.get_remote_balance()), (3_000, 97_000));

    let mut a = channel(100_000, 0);
    a.add_offered_tlc(command(4_000, [6u8; 32])).unwrap();
    let fail = RemoveTlcReason::RemoveTlcFail(TlcErrPacket { onion_packet: vec![2] });
    a.queue_remote_remove(RemoveTlc { channel_id: [9u8; 32], tlc_id: 0, reason: fail }).unwrap();
    let fail_again = RemoveTlcReason::RemoveTlcFail(TlcErrPacket { onion_packet: vec![2] });
    assert!(matches!(
        a.queue_remote_remove(RemoveTlc { channel_id: [9u8; 32], tlc_id: 0, reason: fail_again }),
        Err(ProcessingChannelError::RepeatedProcessing(_))
    ));
    let missing = RemoveTlcReason::RemoveTlcFail(TlcErrPacket { onion_packet: vec![] });
    assert!(matches!(
        a.queue_remote_remove(RemoveTlc { channel_id: [9u8; 32], tlc_id: 5, reason: missing }),
        Err(ProcessingChannelError::InvalidParameter(_))
    ));
}

#[test]
fn snapshot_restores_an_equal_state() {
    let preimage = [31u8; 32];
    let hash = HashAlgorithm::CkbHash.hash(&preimage);
    let mut a = channel(70_000, 30_000);
    a.add_offered_tlc(command(1_000, hash)).unwrap();
    a.save_remote_nonce([4u8; 66]);
    a.remote_shutdown_info = Some(ShutdownInfo { close_script: vec![1, 2], fee_rate: 5, signature: Some([3u8; 32]) });
    let restored = a.clone();
    assert_eq!(restored.get_offered_tlc_balance(), a.get_offered_tlc_balance());
    assert_eq!(restored.remote_nonces, a.remote_nonces);
    assert_eq!(restored.remote_shutdown_info.as_ref().map(|i| i.close_script.clone()), Some(vec![1, 2]));
    assert_eq!(restored.tlc_state.get_next_offering(), 1);
    let mut b = restored;
    let t = b.remove_tlc_with_reason(TLCId::Offered(0), &fulfill(preimage)).unwrap();
    assert_eq!(t.amount, 1_000);
    // the state the snapshot was taken from is untouched by changes to it
    assert_eq!(a.get_local_balance(), 70_000);
    assert_eq!(b.get_local_balance(), 69_000);
}

#[test]
fn funding_and_reserve_split() {
    assert_eq!(get_funding_and_reserved_amount(1_000, 100, false).unwrap(), (900, 100));
    assert_eq!(get_funding_and_reserved_amount(1_000, 100, true).unwrap(), (1_000, 100));
    assert!(matches!(get_funding_and_reserved_amount(99, 100, false), Err(ProcessingChannelError::InvalidParameter(_))));
    assert!(matches!(
        get_funding_and_reserved_amount(u64::MAX as u128, 100, false),
        Err(ProcessingChannelError::InvalidParameter(_))
    ));
}

#[test]
fn settlement_applies_pending_fulfills() {
    let preimage = [41u8; 32];
    let hash = HashAlgorithm::CkbHash.hash(&preimage);
    let mut a = channel(100_000, 0);
    a.add_offered_tlc(command(10_000, hash)).unwrap();
    a.tlc_state.commit_local_tlcs();
    a.tlc_state.commit_remote_tlcs();
    a.queue_remote_remove(RemoveTlc { channel_id: [9u8; 32], tlc_id: 0, reason: fulfill(preimage) }).unwrap();
    assert_eq!(a.get_pending_fulfilled_tlcs_amount(false, true), Some(10_000));
    assert_eq!(a.get_pending_fulfilled_tlcs_amount(false, false), Some(0));
    assert_eq!(a.get_pending_fulfilled_tlcs_amount(true, true), Some(0));
    let fee = 1_000u64;
    let ours = a.settlement_output_amounts(false, fee).unwrap();
    let r = RESERVE as u128 - fee as u128;
    assert_eq!(ours, [(10_000 + r, 0), (90_000 + r, 0)]);
    let theirs = a.settlement_output_amounts(true, fee).unwrap();
    assert_eq!(theirs, [(100_000 + r, 0), (r, 0)]);
    assert!(a.settlement_output_amounts(true, RESERVE + 1).is_none());
    a.funding_udt_type_script = Some(vec![7]);
    assert_eq!(a.settlement_output_amounts(false, fee).unwrap(), [(r, 10_000), (r, 90_000)]);
}

#[test]
fn retry_scan_keeps_only_waiting_removes() {
    let preimage = [51u8; 32];
    let hash = HashAlgorithm::CkbHash.hash(&preimage);
    let mut b = channel(0, 100_000);
    b.add_received_tlc(AddTlc {
        channel_id: [9u8; 32],
        tlc_id: 0,
        amount: 700,
        payment_hash: hash,
        expiry: 1,
        hash_algorithm: HashAlgorithm::CkbHash,
        onion_packet: None,
    })
    .unwrap();
    b.tlc_state.set_tlc_pending_remove(TLCId::Received(0), fulfill(preimage));
    b.tlc_state.set_tlc_pending_remove(TLCId::Received(9), fulfill(preimage));
    b.tlc_state.insert_relay_tlc_remove([3u8; 32], 4, fulfill(preimage));
    b.tlc_state.set_waiting_ack(true);
    assert_eq!(b.retry_local_removes(), 0);
    assert_eq!(b.tlc_state.get_pending_remove().len(), 3);
    b.tlc_state.set_waiting_ack(false);
    assert_eq!(b.retry_local_removes(), 1);
    // the first remove now waits for the ack, so the next one stays queued
    assert_eq!(b.tlc_state.get_pending_remove().len(), 2);
    b.tlc_state.set_waiting_ack(false);
    assert_eq!(b.retry_local_removes(), 0);
    // the unknown tlc fails for good and leaves; the relay stays for the caller
    let left = b.tlc_state.get_pending_remove();
    assert_eq!(left.len(), 1);
    b.settle_relay_remove(&left[0], true);
    assert_eq!(b.tlc_state.get_pending_remove().len(), 1);
    b.settle_relay_remove(&left[0], false);
    assert!(b.tlc_state.get_pending_remove().is_empty());
}

#[test]
fn resend_offered_tlcs_after_reconnect() {
    let mut a = channel(100_000, 0);
    a.add_offered_tlc(command(1, [1u8; 32])).unwrap();
    a.increment_local_commitment_number();
    a.add_offered_tlc(command(2, [2u8; 32])).unwrap();
    let all: Vec<u128> = a.get_tlcs_to_resend(0).iter().map(|t| t.amount).collect();
    assert_eq!(all, vec![1, 2]);
    let later: Vec<u128> = a.get_tlcs_to_resend(1).iter().map(|t| t.amount).collect();
    assert_eq!(later, vec![2]);
    assert!(a.get_tlcs_to_resend(2).is_empty());
}

#[test]
fn channel_update_fields() {
    let mut a = channel(0, 0);
    assert!(a.get_unsigned_channel_update_message(5).is_none());
    a.public_channel_info = Some(PublicChannelInfo::new(7, 8, 9));
    let u = a.get_unsigned_channel_update_message(5).unwrap();
    assert_eq!((u.timestamp, u.message_flags, u.channel_flags), (5, 0, 0));
    assert_eq!((u.tlc_expiry_delta, u.tlc_minimum_value, u.tlc_fee_proportional_millionths), (8, 7, 9));
    let d = a.get_disabled_channel_update_message(6).unwrap();
    assert_eq!(d.channel_flags, 1);
    std::mem::swap(&mut a.local_pubkey, &mut a.remote_pubkey);
    assert_eq!(a.get_unsigned_channel_update_message(5).unwrap().message_flags, 1);
}

#[test]
fn opening_and_accepting_parameters() {
    let mut a = channel(0, 0);
    assert!(a.check_open_channel_parameters(Some(6_100_000_000), 50_000_000).is_ok());
    assert!(matches!(a.check_open_channel_parameters(None, 1), Err(ProcessingChannelError::CapacityError(_))));
    assert!(matches!(
        a.check_open_channel_parameters(Some(RESERVE + 1), 1),
        Err(ProcessingChannelError::InvalidParameter(_))
    ));
    assert!(matches!(
        a.check_open_channel_parameters(Some(6_100_000_000), 50_000_001),
        Err(ProcessingChannelError::InvalidParameter(_))
    ));
    a.funding_fee_rate = 999;
    assert!(a.check_open_channel_parameters(Some(1), 1).is_err());
    assert!(a.check_accept_channel_parameters(Some(6_100_000_000), 50_000_000).is_ok());
    a.remote_constraints = ChannelConstraints::new(1, 126);
    assert!(matches!(
        a.check_accept_channel_parameters(Some(1), 1),
        Err(ProcessingChannelError::InvalidParameter(_))
    ));
}

#[test]
fn getters_and_direction_filters() {
    let mut a = channel(100_000, 100_000);
    a.add_offered_tlc(command(11, [1u8; 32])).unwrap();
    a.add_received_tlc(AddTlc {
        channel_id: [9u8; 32],
        tlc_id: 0,
        amount: 22,
        payment_hash: [2u8; 32],
        expiry: 1,
        hash_algorithm: HashAlgorithm::CkbHash,
        onion_packet: None,
    })
    .unwrap();
    assert_eq!(a.get_all_offer_tlcs().iter().map(|t| t.amount).collect::<Vec<_>>(), vec![11]);
    assert_eq!(a.get_all_received_tlcs().iter().map(|t| t.amount).collect::<Vec<_>>(), vec![22]);
    assert_eq!(a.get_local_shutdown_script(), vec![4, 5, 6]);
    assert_eq!(a.get_remote_shutdown_script(), Some(vec![1, 2, 3]));
    assert_eq!(a.get_local_funding_pubkey(), key(3));
    assert_eq!(a.get_remote_funding_pubkey(), Some(key(5)));
    assert_eq!(a.get_delay_epoch_as_lock_args_bytes(), 0xa000_0000_0000_0006u64.to_le_bytes().to_vec());
    a.increment_remote_commitment_number();
    assert_eq!(a.get_current_local_commitment_point(), a.get_local_commitment_point(1));
}

#[test]
fn add_command_checks_in_order() {
    let now = 1_000;
    let ok_expiry = now + MIN_TLC_EXPIRY_DELTA;
    let mut a = channel(100_000, 0);
    let cmd = |amount: u128, expiry: u64, h: u8| AddTlcCommand { expiry, ..command(amount, [h; 32]) };
    assert!(matches!(a.add_tlc_command(cmd(0, ok_expiry, 1), now), Err(ProcessingChannelError::TlcAmountIsTooLow)));
    assert!(matches!(a.add_tlc_command(cmd(5, ok_expiry - 1, 1), now), Err(ProcessingChannelError::TlcExpirySoon)));
    assert!(matches!(
        a.add_tlc_command(cmd(5, now + MAX_PAYMENT_TLC_EXPIRY_LIMIT, 1), now),
        Err(ProcessingChannelError::TlcExpiryTooFar)
    ));
    let id = a.add_tlc_command(cmd(5, ok_expiry, 1), now).unwrap();
    assert_eq!(id, 0);
    assert!(a.tlc_state.waiting_ack());
    assert_eq!(a.get_offered_tlc_balance(), 5);
    let t = a.get_offered_tlc(0).unwrap();
    assert_eq!((t.amount, t.expiry, t.payment_hash), (5, ok_expiry, [1u8; 32]));
    assert!(matches!(a.add_tlc_command(cmd(5, ok_expiry, 2), now), Err(ProcessingChannelError::WaitingTlcAck)));
    let mut b = channel(100_000, 0);
    b.update_state(ChannelState::ShuttingDown(1));
    assert!(matches!(b.add_tlc_command(cmd(5, ok_expiry, 2), now), Err(ProcessingChannelError::InvalidState(_))));
}

#[test]
fn resend_plan_after_reconnect() {
    let preimage = [61u8; 32];
    let hash = HashAlgorithm::CkbHash.hash(&preimage);
    let mut b = channel(100_000, 100_000);
    assert_eq!(b.reestablish_resend_plan(0).2, false);
    b.add_received_tlc(AddTlc {
        channel_id: [9u8; 32],
        tlc_id: 0,
        amount: 5,
        payment_hash: hash,
        expiry: 1,
        hash_algorithm: HashAlgorithm::CkbHash,
        onion_packet: None,
    })
    .unwrap();
    b.increment_local_commitment_number();
    b.remove_tlc_with_reason(TLCId::Received(0), &fulfill(preimage)).unwrap();
    let (adds, removes, resend) = b.reestablish_resend_plan(1);
    assert!(adds.is_empty());
    assert_eq!(removes.len(), 1);
    assert_eq!(removes[0].0, TLCId::Received(0));
    assert!(resend);
    let (_, removes, resend) = b.reestablish_resend_plan(2);
    assert!(removes.is_empty() && !resend);
}

#[test]
fn log_names_the_tlc() {
    let mut a = channel(100_000, 0);
    a.add_offered_tlc(command(1, [1u8; 32])).unwrap();
    let info = a.get_offered_tlc(0).unwrap().clone();
    assert_eq!(TlcKind::AddTlc(info).log(), "Offered(0)");
    let rm = TlcKind::RemoveTlc(RemoveTlcInfo { channel_id: [0u8; 32], tlc_id: TLCId::Received(1234), reason: fulfill([0u8; 32]) });
    assert_eq!(rm.log(), "RemoveTlc(Received(1234))");
}
