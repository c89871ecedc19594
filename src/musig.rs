use vstd::prelude::*;
use musig2::secp::{MaybeScalar, Point, Scalar};
use musig2::{AggNonce, CompactSignature, KeyAggContext, PartialSignature, PubNonce, SecNonce};
use crate::channel::ProcessingChannelError;
use crate::crypto::{opt_view, Privkey, Pubkey};

verus! {

/// A serialised musig2 public nonce.
pub type PubNonceBytes = [u8; 66];

/// The x-only key that aggregates signer 0's and signer 1's keys, if both are valid points.
pub uninterp spec fn musig2_agg_xonly(key0: Seq<u8>, key1: Seq<u8>) -> Option<Seq<u8>>;

/// The public nonce of the secret nonce built from `seed` for `seckey`, if the key is valid.
pub uninterp spec fn musig2_public_nonce(seed: Seq<u8>, seckey: Seq<u8>) -> Option<Seq<u8>>;

/// The partial signature of `message` by `seckey` (nonce from `seed`) in
/// the session of keys `key0`, `key1` and public nonces `nonce0`, `nonce1`,
/// if every input decodes and signing succeeds.
pub uninterp spec fn musig2_partial_signature(
    key0: Seq<u8>,
    key1: Seq<u8>,
    seckey: Seq<u8>,
    seed: Seq<u8>,
    nonce0: Seq<u8>,
    nonce1: Seq<u8>,
    message: Seq<u8>,
) -> Option<Seq<u8>>;

/// Whether `signature` is a valid partial signature of `message` by
/// `signer` (with `signer_nonce`) in the session of keys `key0`, `key1`
/// and public nonces `nonce0`, `nonce1`.
pub uninterp spec fn musig2_partial_valid(
    key0: Seq<u8>,
    key1: Seq<u8>,
    nonce0: Seq<u8>,
    nonce1: Seq<u8>,
    signer: Seq<u8>,
    signer_nonce: Seq<u8>,
    signature: Seq<u8>,
    message: Seq<u8>,
) -> bool;

/// The aggregated signature of two partial signatures of `message`, if
/// every input decodes and the aggregate verifies.
pub uninterp spec fn musig2_aggregate(
    key0: Seq<u8>,
    key1: Seq<u8>,
    nonce0: Seq<u8>,
    nonce1: Seq<u8>,
    signature0: Seq<u8>,
    signature1: Seq<u8>,
    message: Seq<u8>,
) -> Option<Seq<u8>>;

/// Relies on musig2::KeyAggContext::new and aggregated_pubkey: the x-only
/// aggregate of two keys, signer 0 first.
#[verifier::external_body]
fn key_agg_xonly(key0: &Pubkey, key1: &Pubkey) -> (r: Option<[u8; 32]>)
    ensures
        opt_view(r) == musig2_agg_xonly(key0@, key1@),
{
    let points = [Point::from_slice(key0).ok()?, Point::from_slice(key1).ok()?];
    let ctx = KeyAggContext::new(points).ok()?;
    Some(ctx.aggregated_pubkey::<Point>().serialize_xonly())
}

/// Relies on musig2::SecNonce::build_with_seckey(..).build() and
/// SecNonce::public_nonce: a deterministic nonce from a seed and a key.
#[verifier::external_body]
fn secret_nonce_public(seed: &[u8; 32], seckey: &Privkey) -> (r: Option<PubNonceBytes>)
    ensures
        opt_view(r) == musig2_public_nonce(seed@, seckey@),
{
    let sk = Scalar::from_slice(seckey).ok()?;
    Some(SecNonce::build_with_seckey(*seed, sk).build().public_nonce().serialize())
}

/// Relies on musig2::sign_partial: the partial signature of one signer.
#[verifier::external_body]
fn partial_sign(
    key0: &Pubkey,
    key1: &Pubkey,
    seckey: &Privkey,
    seed: &[u8; 32],
    nonce0: &PubNonceBytes,
    nonce1: &PubNonceBytes,
    message: &[u8],
) -> (r: Option<[u8; 32]>)
    ensures
        opt_view(r) == musig2_partial_signature(key0@, key1@, seckey@, seed@, nonce0@, nonce1@, message@),
{
    let ctx = KeyAggContext::new([Point::from_slice(key0).ok()?, Point::from_slice(key1).ok()?]).ok()?;
    let sk = Scalar::from_slice(seckey).ok()?;
    let secnonce = SecNonce::build_with_seckey(*seed, sk).build();
    let agg = AggNonce::sum([PubNonce::from_bytes(nonce0).ok()?, PubNonce::from_bytes(nonce1).ok()?]);
    let sig: PartialSignature = musig2::sign_partial(&ctx, sk, secnonce, &agg, message).ok()?;
    Some(sig.serialize())
}

/// Relies on musig2::verify_partial: whether one signer's partial signature verifies.
#[verifier::external_body]
fn partial_verify(
    key0: &Pubkey,
    key1: &Pubkey,
    nonce0: &PubNonceBytes,
    nonce1: &PubNonceBytes,
    signer: &Pubkey,
    signer_nonce: &PubNonceBytes,
    signature: &[u8; 32],
    message: &[u8],
) -> (r: bool)
    ensures
        r == musig2_partial_valid(key0@, key1@, nonce0@, nonce1@, signer@, signer_nonce@, signature@, message@),
{
    let decoded = (Point::from_slice(key0), Point::from_slice(key1), PubNonce::from_bytes(nonce0),
        PubNonce::from_bytes(nonce1), Point::from_slice(signer), PubNonce::from_bytes(signer_nonce),
        MaybeScalar::from_slice(signature));
    match decoded {
        (Ok(k0), Ok(k1), Ok(n0), Ok(n1), Ok(pk), Ok(pn), Ok(sig)) => match KeyAggContext::new([k0, k1]) {
            Ok(ctx) => musig2::verify_partial(&ctx, sig, &AggNonce::sum([n0, n1]), pk, &pn, message).is_ok(),
            Err(_) => false,
        },
        _ => false,
    }
}

/// Relies on musig2::aggregate_partial_signatures: the 64-byte aggregated signature.
#[verifier::external_body]
fn aggregate(
    key0: &Pubkey,
    key1: &Pubkey,
    nonce0: &PubNonceBytes,
    nonce1: &PubNonceBytes,
    signature0: &[u8; 32],
    signature1: &[u8; 32],
    message: &[u8],
) -> (r: Option<[u8; 64]>)
    ensures
        opt_view(r) == musig2_aggregate(key0@, key1@, nonce0@, nonce1@, signature0@, signature1@, message@),
{
    let ctx = KeyAggContext::new([Point::from_slice(key0).ok()?, Point::from_slice(key1).ok()?]).ok()?;
    let agg = AggNonce::sum([PubNonce::from_bytes(nonce0).ok()?, PubNonce::from_bytes(nonce1).ok()?]);
    let sigs = [MaybeScalar::from_slice(signature0).ok()?, MaybeScalar::from_slice(signature1).ok()?];
    let sig: CompactSignature = musig2::aggregate_partial_signatures(&ctx, &agg, sigs, message).ok()?;
    Some(sig.serialize())
}

/// The x-only aggregate of two keys, signer 0 first; `None` when a key is invalid.
pub fn aggregated_xonly_pubkey(key0: &Pubkey, key1: &Pubkey) -> (r: Option<[u8; 32]>)
    ensures
        opt_view(r) == musig2_agg_xonly(key0@, key1@),
{
    key_agg_xonly(key0, key1)
}

/// The public nonce that goes with the secret nonce from `seed` for `seckey`.
pub fn public_nonce_of(seed: &[u8; 32], seckey: &Privkey) -> (r: Option<PubNonceBytes>)
    ensures
        opt_view(r) == musig2_public_nonce(seed@, seckey@),
{
    secret_nonce_public(seed, seckey)
}

/// What one signer needs to partially sign in a two-party session: the
/// keys and public nonces in party order, its secret key and its nonce seed.
#[derive(Copy, Clone, Debug)]
pub struct Musig2SignContext {
    pub keys: [Pubkey; 2],
    pub nonces: [PubNonceBytes; 2],
    pub seckey: Privkey,
    pub nonce_seed: [u8; 32],
}

impl Musig2SignContext {
    /// Partially sign `message`; a failure of the signer is a `Musig2SigningError`.
    pub fn sign(&self, message: &[u8]) -> (r: Result<[u8; 32], ProcessingChannelError>)
        ensures
            match musig2_partial_signature(
                self.keys[0]@,
                self.keys[1]@,
                self.seckey@,
                self.nonce_seed@,
                self.nonces[0]@,
                self.nonces[1]@,
                message@,
            ) {
                Some(sig) => r is Ok && r->Ok_0@ == sig,
                None => r is Err && r->Err_0 is Musig2SigningError,
            },
    {
        match partial_sign(
            &self.keys[0],
            &self.keys[1],
            &self.seckey,
            &self.nonce_seed,
            &self.nonces[0],
            &self.nonces[1],
            message,
        ) {
            Some(sig) => Ok(sig),
            None => Err(ProcessingChannelError::Musig2SigningError("partial signing failed".to_string())),
        }
    }
}

/// What one signer needs to check the other's partial signature and
/// aggregate the pair: the keys and public nonces in party order, and the
/// other signer's key and nonce.
#[derive(Copy, Clone, Debug)]
pub struct Musig2VerifyContext {
    pub keys: [Pubkey; 2],
    pub nonces: [PubNonceBytes; 2],
    pub pubkey: Pubkey,
    pub pubnonce: PubNonceBytes,
}

impl Musig2VerifyContext {
    /// Check the other signer's partial signature of `message`.
    pub fn verify(&self, signature: &[u8; 32], message: &[u8]) -> (r: Result<(), ProcessingChannelError>)
        ensures
            r is Ok <==> musig2_partial_valid(
                self.keys[0]@,
                self.keys[1]@,
                self.nonces[0]@,
                self.nonces[1]@,
                self.pubkey@,
                self.pubnonce@,
                signature@,
                message@,
            ),
            r is Err ==> r->Err_0 is Musig2VerifyError,
    {
        if partial_verify(
            &self.keys[0],
            &self.keys[1],
            &self.nonces[0],
            &self.nonces[1],
            &self.pubkey,
            &self.pubnonce,
            signature,
            message,
        ) {
            Ok(())
        } else {
            Err(ProcessingChannelError::Musig2VerifyError("invalid partial signature".to_string()))
        }
    }

    /// Aggregate two partial signatures of `message` (party order) into one signature.
    pub fn aggregate_partial_signatures_for_msg(&self, partial_signatures: [[u8; 32]; 2], message: &[u8]) -> (r:
        Result<[u8; 64], ProcessingChannelError>)
        ensures
            match musig2_aggregate(
                self.keys[0]@,
                self.keys[1]@,
                self.nonces[0]@,
                self.nonces[1]@,
                partial_signatures[0]@,
                partial_signatures[1]@,
                message@,
            ) {
                Some(sig) => r is Ok && r->Ok_0@ == sig,
                None => r is Err && r->Err_0 is Musig2VerifyError,
            },
    {
        match aggregate(
            &self.keys[0],
            &self.keys[1],
            &self.nonces[0],
            &self.nonces[1],
            &partial_signatures[0],
            &partial_signatures[1],
            message,
        ) {
            Some(sig) => Ok(sig),
            None => Err(ProcessingChannelError::Musig2VerifyError("aggregation failed".to_string())),
        }
    }
}

} // verus!
