use fiber_channel::encoding::{
    commitment_lock_args, create_witness_for_commitment_cell, create_witness_for_funding_cell,
    delay_epoch_lock_args_bytes, get_active_htlcs, since_value, HtlcEntry, SinceType,
};
use fiber_channel::tlc::{HashAlgorithm, TLCId};

fn entry(id: TLCId, amount: u128) -> HtlcEntry {
    HtlcEntry {
        tlc_id: id,
        hash_algorithm: HashAlgorithm::CkbHash,
        amount,
        payment_hash: [amount as u8; 32],
        expiry: 77,
        local_key: [1u8; 33],
        remote_key: [2u8; 33],
    }
}

#[test]
fn since_flags() {
    assert_eq!(since_value(SinceType::BlockNumber, 5, false), 5);
    assert_eq!(since_value(SinceType::EpochNumberWithFraction, 6, true), 0xa000_0000_0000_0006);
    assert_eq!(since_value(SinceType::Timestamp, 9, false), 0x4000_0000_0000_0009);
    assert_eq!(delay_epoch_lock_args_bytes(6), 0xa000_0000_0000_0006u64.to_le_bytes().to_vec());
}

#[test]
fn witnesses_have_fixed_layout() {
    let w = create_witness_for_funding_cell([3u8; 32], [4u8; 64]);
    assert_eq!(w.len(), 112);
    assert_eq!(&w[..16], &[16, 0, 0, 0, 16, 0, 0, 0, 16, 0, 0, 0, 16, 0, 0, 0]);
    assert_eq!(&w[16..48], &[3u8; 32]);
    let c = create_witness_for_commitment_cell([3u8; 32], [4u8; 64]);
    assert_eq!(c.len(), 113);
    assert_eq!(c[16], 0xFE);
    assert_eq!(&c[49..], &[4u8; 64]);
}

#[test]
fn lock_args_layout() {
    let no_tlcs = commitment_lock_args(&[1u8; 32], 6, 0x0102, &[]);
    assert_eq!(no_tlcs.len(), 36);
    assert_eq!(&no_tlcs[20..28], &0xa000_0000_0000_0006u64.to_le_bytes());
    assert_eq!(&no_tlcs[28..36], &0x0102u64.to_be_bytes());
    let with_tlcs = commitment_lock_args(&[1u8; 32], 6, 0x0102, &[1, 2, 3]);
    assert_eq!(with_tlcs.len(), 56);
    assert_eq!(&with_tlcs[..36], &no_tlcs[..]);
    let h = HashAlgorithm::CkbHash.hash(&[1u8; 32]);
    assert_eq!(&no_tlcs[..20], &h[..20]);
}

#[test]
fn htlcs_sorted_received_first_then_offered() {
    let entries = vec![entry(TLCId::Offered(2), 20), entry(TLCId::Received(1), 11), entry(TLCId::Offered(0), 10), entry(TLCId::Received(0), 1)];
    let bytes = get_active_htlcs(&entries, true);
    let per = 1 + 16 + 20 + 33 + 33 + 8;
    assert_eq!(bytes.len(), 1 + 4 * per);
    assert_eq!(bytes[0], 4);
    let amounts: Vec<u8> = (0..4).map(|i| bytes[1 + i * per + 1]).collect();
    assert_eq!(amounts, vec![1, 11, 10, 20]);
    let types: Vec<u8> = (0..4).map(|i| bytes[1 + i * per]).collect();
    assert_eq!(types, vec![1, 1, 0, 0]);
    let expiry = &bytes[1 + per - 8..1 + per];
    assert_eq!(expiry, &0x4000_0000_0000_004du64.to_le_bytes());
    assert!(get_active_htlcs(&[], true).is_empty());
}

#[test]
fn both_sides_encode_the_same_htlcs() {
    let ours = vec![entry(TLCId::Offered(0), 10), entry(TLCId::Received(3), 30), entry(TLCId::Offered(1), 5)];
    // the peer names each TLC the other way round, and lists them in another order
    let theirs = vec![entry(TLCId::Offered(3), 30), entry(TLCId::Received(1), 5), entry(TLCId::Received(0), 10)];
    assert_eq!(get_active_htlcs(&ours, true), get_active_htlcs(&theirs, false));
    assert_eq!(get_active_htlcs(&theirs, true), get_active_htlcs(&ours, false));
    let a = commitment_lock_args(&[5u8; 32], 6, 3, &get_active_htlcs(&ours, true));
    let b = commitment_lock_args(&[5u8; 32], 6, 3, &get_active_htlcs(&theirs, false));
    assert_eq!(a, b);
}
