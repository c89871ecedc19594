use fiber_channel::crypto::{
    derive_channel_id_from_tlc_keys, derive_private_key, derive_public_key, derive_temp_channel_id_from_tlc_key,
    get_commitment_point, get_commitment_secret, get_tweak_by_commitment_point, InMemorySigner,
};
use fiber_channel::tlc::HashAlgorithm;

fn hex(s: &str) -> Vec<u8> {
    (0..s.len()).step_by(2).map(|i| u8::from_str_radix(&s[i..i + 2], 16).unwrap()).collect()
}

const G: &str = "0279be667ef9dcbbac55a06295ce870b07029bfcdb2dce28d959f2815b16f81798";

#[test]
fn hash_algorithms_known_digests() {
    let sha = HashAlgorithm::Sha256.hash(b"abc");
    assert_eq!(sha.to_vec(), hex("ba7816bf8f01cfea414140de5dae2223b00361a396177a9cb410ff61f20015ad"));
    let blank = HashAlgorithm::CkbHash.hash(b"");
    assert_eq!(blank.to_vec(), hex("44f4c69744d5f8c55d642062949dcae49bc4e7ef43d388c5a12f42b5633d163e"));
    assert_ne!(HashAlgorithm::CkbHash.hash(&[1u8; 32]), [1u8; 32]);
}

#[test]
fn commitment_secret_chain() {
    let seed = [7u8; 32];
    // no bit set: the seed itself
    assert_eq!(get_commitment_secret(&seed, 0), seed);
    // bit 0 set: flip bit 0 of byte 0, then hash
    let mut flipped = seed;
    flipped[0] ^= 1;
    assert_eq!(get_commitment_secret(&seed, 1), HashAlgorithm::CkbHash.hash(&flipped));
    assert_ne!(get_commitment_secret(&seed, 2), get_commitment_secret(&seed, 1));
}

#[test]
fn commitment_point_is_public_key_of_secret() {
    let mut one = [0u8; 32];
    one[31] = 1;
    let signer = InMemorySigner { funding_key: one, tlc_base_key: one, musig2_base_nonce: one, commitment_seed: one };
    // commitment 0 keeps the seed, whose key is 1, so the point is the generator
    assert_eq!(get_commitment_point(&one, 0).unwrap().to_vec(), hex(G));
    assert_eq!(signer.get_commitment_point(0), get_commitment_point(&one, 0));
    let base = signer.get_base_public_keys().unwrap();
    assert_eq!(base.funding_pubkey.to_vec(), hex(G));
    assert!(get_commitment_point(&[0u8; 32], 0).is_none());
    assert!(signer.derive_tlc_key(3).is_some());
}

#[test]
fn derived_keys_agree_on_both_halves() {
    let mut secret = [0u8; 32];
    secret[31] = 5;
    let point = get_commitment_point(&[9u8; 32], 4).unwrap();
    let tweak = get_tweak_by_commitment_point(&point);
    assert_eq!(tweak, HashAlgorithm::CkbHash.hash(&point));
    let derived_secret = derive_private_key(&secret, &point).unwrap();
    let base_public = get_commitment_point(&secret, 0).unwrap();
    let derived_public = derive_public_key(&base_public, &point).unwrap();
    assert_eq!(get_commitment_point(&derived_secret, 0).unwrap(), derived_public);
    assert_ne!(derived_public, base_public);
}

#[test]
fn channel_id_ignores_key_order() {
    let mut k1 = [3u8; 33];
    k1[0] = 2;
    let mut k2 = [4u8; 33];
    k2[0] = 3;
    let id = derive_channel_id_from_tlc_keys(&k1, &k2);
    assert_eq!(id, derive_channel_id_from_tlc_keys(&k2, &k1));
    let mut pre = k1.to_vec();
    pre.extend_from_slice(&k2);
    assert_eq!(id, HashAlgorithm::CkbHash.hash(&pre));
    let mut temp = k1.to_vec();
    temp.extend_from_slice(&[0u8; 33]);
    assert_eq!(derive_temp_channel_id_from_tlc_key(&k1), HashAlgorithm::CkbHash.hash(&temp));
}
