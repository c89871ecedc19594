use fiber_channel::channel::{ChannelConstraints, ChannelState};
use fiber_channel::crypto::{get_commitment_point, ChannelBasePublicKeys, InMemorySigner};
use fiber_channel::ledger::TlcState;
use fiber_channel::musig::aggregated_xonly_pubkey;
use fiber_channel::state::{build_lock_message, ChannelActorState, ShutdownInfo};
use fiber_channel::tlc::{AddTlcInfo, CommitmentNumbers, HashAlgorithm, TLCId};

fn secret(b: u8) -> [u8; 32] {
    let mut s = [0u8; 32];
    s[31] = b;
    s
}

fn public(b: u8) -> [u8; 33] {
    get_commitment_point(&secret(b), 0).unwrap()
}

/// A serialised lock script: header, three offsets, code hash, hash type, empty args.
fn script(code: u8) -> Vec<u8> {
    let mut v = Vec::new();
    for x in [53u32, 16, 48, 49] {
        v.extend_from_slice(&x.to_le_bytes());
    }
    v.extend_from_slice(&[code; 32]);
    v.push(1);
    v.extend_from_slice(&0u32.to_le_bytes());
    v
}

fn party(funding: u8, tlc: u8, nonce: u8, seed: u8, peer_funding: u8, peer_tlc: u8) -> ChannelActorState {
    ChannelActorState {
        state: ChannelState::ChannelReady(),
        public_channel_info: None,
        local_pubkey: public(funding + 100),
        remote_pubkey: public(peer_funding + 100),
        id: [1u8; 32],
        funding_udt_type_script: None,
        is_acceptor: false,
        to_local_amount: 1_000,
        to_remote_amount: 1_000,
        local_reserved_ckb_amount: 10,
        remote_reserved_ckb_amount: 10,
        commitment_fee_rate: 1_000,
        commitment_delay_epoch: 6,
        funding_fee_rate: 1_000,
        signer: InMemorySigner {
            funding_key: secret(funding),
            tlc_base_key: secret(tlc),
            musig2_base_nonce: secret(nonce),
            commitment_seed: [seed; 32],
        },
        local_channel_public_keys: ChannelBasePublicKeys { funding_pubkey: public(funding), tlc_base_key: public(tlc) },
        commitment_numbers: CommitmentNumbers::new(),
        local_constraints: ChannelConstraints::default(),
        remote_constraints: ChannelConstraints::default(),
        tlc_state: TlcState::new(),
        remote_shutdown_script: Some(script(peer_funding)),
        local_shutdown_script: script(funding),
        last_used_nonce_in_commitment_signed: None,
        remote_nonces: Vec::new(),
        remote_commitment_points: Vec::new(),
        remote_channel_public_keys: Some(ChannelBasePublicKeys {
            funding_pubkey: public(peer_funding),
            tlc_base_key: public(peer_tlc),
        }),
        local_shutdown_info: None,
        remote_shutdown_info: None,
        reestablishing: false,
        created_at: 0,
    }
}

#[test]
fn both_parties_build_the_same_signing_session() {
    let mut a = party(3, 4, 5, 6, 7, 8);
    let mut b = party(7, 8, 9, 10, 3, 4);
    let nonce_a = a.get_local_nonce().unwrap();
    let nonce_b = b.get_local_nonce().unwrap();
    assert_ne!(a.get_next_local_nonce().unwrap(), nonce_a);
    a.save_remote_nonce(nonce_b);
    b.save_remote_nonce(nonce_a);
    assert_eq!(a.get_musig2_keys(), b.get_musig2_keys());
    assert_eq!(a.get_funding_lock_script_xonly(), b.get_funding_lock_script_xonly());
    assert!(a.get_funding_lock_script_xonly().is_some());
    let sign_a = a.get_sign_context().unwrap();
    let sign_b = b.get_sign_context().unwrap();
    let verify_a = a.get_verify_context().unwrap();
    let verify_b = b.get_verify_context().unwrap();
    assert_eq!(sign_a.nonces, sign_b.nonces);
    let message = b"shutdown transaction";
    let partial_a = sign_a.sign(message).unwrap();
    let partial_b = sign_b.sign(message).unwrap();
    assert!(verify_b.verify(&partial_a, message).is_ok());
    assert!(verify_a.verify(&partial_b, message).is_ok());
    let order = |x, y| if a.should_local_go_first_in_musig2() { [x, y] } else { [y, x] };
    let full_a = verify_a.aggregate_partial_signatures_for_msg(order(partial_a, partial_b), message).unwrap();
    let full_b = verify_b.aggregate_partial_signatures_for_msg(order(partial_a, partial_b), message).unwrap();
    assert_eq!(full_a, full_b);
}

#[test]
fn tlc_keys_pair_up_across_parties() {
    let mut a = party(3, 4, 5, 6, 7, 8);
    let b = party(7, 8, 9, 10, 3, 4);
    // each side keeps the other's commitment point for number 0
    a.remote_commitment_points.push((0, b.signer.get_commitment_point(0).unwrap()));
    let tlc = AddTlcInfo {
        channel_id: [1u8; 32],
        tlc_id: TLCId::Offered(0),
        amount: 5,
        payment_hash: [2u8; 32],
        expiry: 9,
        hash_algorithm: HashAlgorithm::CkbHash,
        onion_packet: None,
        shared_secret: [0u8; 32],
        created_at: CommitmentNumbers::new(),
        removed_at: None,
        payment_preimage: None,
        previous_tlc: None,
    };
    let (offerer, receiver) = a.get_tlc_pubkeys(&tlc).unwrap();
    assert_ne!(offerer, receiver);
    let missing = AddTlcInfo { created_at: CommitmentNumbers { local: 4, remote: 0 }, ..tlc };
    assert!(a.get_tlc_pubkeys(&missing).is_none());
    a.set_received_tlc_preimage(0, Some([3u8; 32]));
}

fn signer(f: u8, t: u8) -> InMemorySigner {
    InMemorySigner { funding_key: secret(f), tlc_base_key: secret(t), musig2_base_nonce: secret(1), commitment_seed: [f; 32] }
}

#[test]
fn constructors_agree_on_the_channel_id() {
    let opener = ChannelActorState::new_outbound_channel(
        None, signer(3, 4), public(1), public(2), 5_000, 100, 1_000, 6, 1_000, None, vec![1], u128::MAX, 30, 7,
    )
    .unwrap();
    assert_eq!(opener.state, ChannelState::NegotiatingFunding(0));
    assert_eq!(opener.local_channel_public_keys.tlc_base_key, public(4));
    let mut temp = public(4).to_vec();
    temp.extend_from_slice(&[0u8; 33]);
    assert_eq!(opener.id, HashAlgorithm::CkbHash.hash(&temp));
    let acceptor = ChannelActorState::new_inbound_channel(
        None,
        signer(7, 8),
        public(2),
        public(1),
        0,
        100,
        5_000,
        100,
        1_000,
        6,
        1_000,
        None,
        vec![2],
        vec![1],
        opener.local_channel_public_keys,
        [9u8; 66],
        public(11),
        public(12),
        ChannelConstraints::default(),
        ChannelConstraints::default(),
        8,
    )
    .unwrap();
    assert!(acceptor.is_acceptor);
    assert_eq!(acceptor.remote_commitment_points.len(), 2);
    assert_eq!(acceptor.get_remote_nonce(), Some([9u8; 66]));
    let id = fiber_channel::crypto::derive_channel_id_from_tlc_keys(&public(4), &public(8));
    assert_eq!(acceptor.id, id);
    let bad = InMemorySigner { funding_key: [0u8; 32], ..signer(3, 4) };
    assert!(ChannelActorState::new_outbound_channel(
        None, bad, public(1), public(2), 1, 1, 1, 1, 1, None, vec![], 1, 1, 0
    )
    .is_none());
}

#[test]
fn commitment_round_between_two_parties() {
    let mut a = party(3, 4, 5, 6, 7, 8);
    let mut b = party(7, 8, 9, 10, 3, 4);
    for s in [&mut a, &mut b] {
        s.increment_local_commitment_number();
        s.increment_remote_commitment_number();
    }
    let n_a = a.get_local_nonce().unwrap();
    let n_b = b.get_local_nonce().unwrap();
    a.remote_nonces.push((1, n_b));
    b.remote_nonces.push((1, n_a));
    // A signs its CommitmentSigned for B
    let hash = [42u8; 32];
    let settlement = b"outputs of B's settlement".to_vec();
    let x = aggregated_xonly_pubkey(&a.get_local_funding_pubkey(), &b.get_local_funding_pubkey()).unwrap();
    let sign_a = a.get_sign_context().unwrap();
    let funding_partial = sign_a.sign(&hash).unwrap();
    let commitment_partial = sign_a.sign(&build_lock_message(&settlement, &x, 6, 1)).unwrap();
    a.save_remote_nonce_for_raa();
    // B verifies it and answers with its RevokeAndAck
    let fee = 7;
    let raa_settlement = b"outputs of A's settlement".to_vec();
    let bad = b.clone().verify_commitment_signed(
        commitment_partial, commitment_partial, [1u8; 66], &hash, &settlement, fee, &raa_settlement,
    );
    assert!(bad.is_err());
    let (rev, com) = b
        .verify_commitment_signed(funding_partial, commitment_partial, [1u8; 66], &hash, &settlement, fee, &raa_settlement)
        .unwrap();
    assert_eq!(b.get_remote_commitment_number(), 2);
    // the revocation pays everything but the fee to A's shutdown script
    let out = a.build_revocation_output(fee, &a.get_local_shutdown_script()).unwrap();
    assert_eq!(&out[out.len() - 4..], &[0u8, 0, 0, 0]);
    // output: header and three offsets, capacity, lock script, no type script; then empty data
    assert_eq!(out.len(), 4 + 4 * 3 + 8 + 53 + 4);
    assert_eq!(&out[..4], &77u32.to_le_bytes());
    let capacity = a.get_total_ckb_amount() as u64 - fee;
    assert_eq!(&out[16..24], &capacity.to_le_bytes());
    assert!(a.build_revocation_output(fee, &[1, 2, 3]).is_none());
    // A completes the revocation and settlement signatures
    let other_point = public(30);
    assert!(a.clone().handle_revoke_and_ack(com, rev, other_point, fee, &raa_settlement).is_err());
    assert!(a.clone().handle_revoke_and_ack(rev, com, other_point, fee + 1, &raa_settlement).is_err());
    let (full_rev, full_set) = a.handle_revoke_and_ack(rev, com, other_point, fee, &raa_settlement).unwrap();
    assert_ne!(full_rev, full_set);
    assert_eq!(a.get_local_commitment_number(), 2);
    assert!(a.last_used_nonce_in_commitment_signed.is_none());
}

#[test]
fn cooperative_close_signatures() {
    let mut a = party(3, 4, 5, 6, 7, 8);
    let mut b = party(7, 8, 9, 10, 3, 4);
    let n_a = a.get_local_nonce().unwrap();
    let n_b = b.get_local_nonce().unwrap();
    a.save_remote_nonce(n_b);
    b.save_remote_nonce(n_a);
    let hash = [77u8; 32];
    assert!(a.sign_shutdown(&hash).is_err());
    let info = |s: &ChannelActorState| ShutdownInfo { close_script: s.get_local_shutdown_script(), fee_rate: 1_000, signature: None };
    a.local_shutdown_info = Some(info(&a));
    a.remote_shutdown_info = Some(info(&b));
    b.local_shutdown_info = Some(info(&b));
    b.remote_shutdown_info = Some(info(&a));
    assert_eq!(a.sign_shutdown(&hash).unwrap(), None);
    let sig_a = a.local_shutdown_info.as_ref().unwrap().signature.unwrap();
    b.remote_shutdown_info.as_mut().unwrap().signature = Some(sig_a);
    let full = b.sign_shutdown(&hash).unwrap().unwrap();
    assert_eq!(b.state, ChannelState::Closed(1));
    let sig_b = b.local_shutdown_info.as_ref().unwrap().signature.unwrap();
    a.remote_shutdown_info.as_mut().unwrap().signature = Some(sig_b);
    assert_eq!(a.sign_shutdown(&hash).unwrap(), Some(full));
    assert!(a.accepts_peer_message(false));
    a.reestablishing = true;
    assert!(!a.accepts_peer_message(false) && a.accepts_peer_message(true));
}
