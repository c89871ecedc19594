use fiber_channel::crypto::get_commitment_point;
use fiber_channel::musig::{aggregated_xonly_pubkey, public_nonce_of, Musig2SignContext, Musig2VerifyContext};

fn secret(b: u8) -> [u8; 32] {
    let mut s = [0u8; 32];
    s[31] = b;
    s
}

#[test]
fn two_party_signing_round() {
    let (sk_a, sk_b) = (secret(3), secret(4));
    // the commitment point of number 0 is the public key of the seed itself
    let pk_a = get_commitment_point(&sk_a, 0).unwrap();
    let pk_b = get_commitment_point(&sk_b, 0).unwrap();
    let (seed_a, seed_b) = ([10u8; 32], [11u8; 32]);
    let n_a = public_nonce_of(&seed_a, &sk_a).unwrap();
    let n_b = public_nonce_of(&seed_b, &sk_b).unwrap();
    assert_ne!(n_a, n_b);
    let keys = [pk_a, pk_b];
    let nonces = [n_a, n_b];
    let message = b"commitment";
    let sig_a = Musig2SignContext { keys, nonces, seckey: sk_a, nonce_seed: seed_a }.sign(message).unwrap();
    let sig_b = Musig2SignContext { keys, nonces, seckey: sk_b, nonce_seed: seed_b }.sign(message).unwrap();
    let check_b = Musig2VerifyContext { keys, nonces, pubkey: pk_b, pubnonce: n_b };
    let check_a = Musig2VerifyContext { keys, nonces, pubkey: pk_a, pubnonce: n_a };
    assert!(check_b.verify(&sig_b, message).is_ok());
    assert!(check_a.verify(&sig_a, message).is_ok());
    assert!(check_b.verify(&sig_a, message).is_err());
    assert!(check_b.verify(&sig_b, b"other").is_err());
    let agg_a = check_b.aggregate_partial_signatures_for_msg([sig_a, sig_b], message).unwrap();
    let agg_b = check_a.aggregate_partial_signatures_for_msg([sig_a, sig_b], message).unwrap();
    assert_eq!(agg_a, agg_b);
    assert!(check_a.aggregate_partial_signatures_for_msg([sig_a, sig_a], message).is_err());
    let xonly = aggregated_xonly_pubkey(&pk_a, &pk_b).unwrap();
    assert_ne!(xonly, aggregated_xonly_pubkey(&pk_b, &pk_a).unwrap());
    assert!(aggregated_xonly_pubkey(&[0u8; 33], &pk_b).is_none());
    // a signer whose key is not in the session cannot sign
    assert!(Musig2SignContext { keys, nonces, seckey: secret(5), nonce_seed: seed_a }.sign(message).is_err());
}
