use vstd::prelude::*;
use sha2::Digest;
use crate::tlc::{Hash256, HashAlgorithm};

verus! {

/// A compressed secp256k1 public key.
pub type Pubkey = [u8; 33];

/// A secp256k1 secret key.
pub type Privkey = [u8; 32];

/// The ckb-flavoured blake2b-256 digest (personalisation "ckb-default-hash").
pub uninterp spec fn ckb_blake2b_256(data: Seq<u8>) -> Seq<u8>;

/// The SHA-256 digest.
pub uninterp spec fn sha256_digest(data: Seq<u8>) -> Seq<u8>;

/// The compressed public key of a secret key, if the bytes are a valid secret key.
pub uninterp spec fn secp_public_key(secret: Seq<u8>) -> Option<Seq<u8>>;

/// A secret key plus a scalar tweak, if both are valid and the sum is a valid key.
pub uninterp spec fn secp_tweak_secret_key(secret: Seq<u8>, tweak: Seq<u8>) -> Option<Seq<u8>>;

/// A public key plus `tweak * G`, if both are valid and the sum is a valid key.
pub uninterp spec fn secp_tweak_public_key(public: Seq<u8>, tweak: Seq<u8>) -> Option<Seq<u8>>;

/// The view of an optional fixed-size key.
pub open spec fn opt_view<const N: usize>(k: Option<[u8; N]>) -> Option<Seq<u8>> {
    match k {
        Some(a) => Some(a@),
        None => None,
    }
}

/// Relies on ckb_hash::blake2b_256: the 32-byte ckb blake2b digest of the input.
#[verifier::external_body]
pub(crate) fn blake2b_256_of(data: &[u8]) -> (r: [u8; 32])
    ensures
        r@ == ckb_blake2b_256(data@),
{
    ckb_hash::blake2b_256(data)
}

/// Relies on sha2::Sha256::digest: the 32-byte SHA-256 digest of the input.
#[verifier::external_body]
fn sha256_of(data: &[u8]) -> (r: [u8; 32])
    ensures
        r@ == sha256_digest(data@),
{
    sha2::Sha256::digest(data).into()
}

/// Relies on secp256k1::PublicKey::from_secret_key (after SecretKey::from_slice)
/// and PublicKey::serialize: the compressed public key of a valid secret key.
#[verifier::external_body]
fn secret_key_to_public(secret: &Privkey) -> (r: Option<Pubkey>)
    ensures
        opt_view(r) == secp_public_key(secret@),
{
    match secp256k1::SecretKey::from_slice(secret) {
        Ok(sk) => Some(secp256k1::PublicKey::from_secret_key(&secp256k1::Secp256k1::new(), &sk).serialize()),
        Err(_) => None,
    }
}

/// Relies on secp256k1::SecretKey::add_tweak (after SecretKey::from_slice and
/// Scalar::from_be_bytes): the tweaked secret key, or nothing when any step fails.
#[verifier::external_body]
fn tweak_secret_key(secret: &Privkey, tweak: &[u8; 32]) -> (r: Option<Privkey>)
    ensures
        opt_view(r) == secp_tweak_secret_key(secret@, tweak@),
{
    let sk = secp256k1::SecretKey::from_slice(secret).ok()?;
    let scalar = secp256k1::Scalar::from_be_bytes(*tweak).ok()?;
    let tweaked = sk.add_tweak(&scalar).ok()?;
    Some(tweaked.secret_bytes())
}

/// Relies on secp256k1::PublicKey::add_exp_tweak (after PublicKey::from_slice and
/// Scalar::from_be_bytes): the tweaked public key, or nothing when any step fails.
#[verifier::external_body]
fn tweak_public_key(public: &Pubkey, tweak: &[u8; 32]) -> (r: Option<Pubkey>)
    ensures
        opt_view(r) == secp_tweak_public_key(public@, tweak@),
{
    let pk = secp256k1::PublicKey::from_slice(public).ok()?;
    let scalar = secp256k1::Scalar::from_be_bytes(*tweak).ok()?;
    let tweaked = pk.add_exp_tweak(&secp256k1::Secp256k1::new(), &scalar).ok()?;
    Some(tweaked.serialize())
}

/// The digest of `data` under a TLC's hash algorithm.
pub open spec fn spec_hash(algorithm: HashAlgorithm, data: Seq<u8>) -> Seq<u8> {
    match algorithm {
        HashAlgorithm::CkbHash => ckb_blake2b_256(data),
        HashAlgorithm::Sha256 => sha256_digest(data),
    }
}

impl HashAlgorithm {
    /// Hash `data` under this algorithm.
    pub fn hash(&self, data: &[u8]) -> (r: Hash256)
        ensures
            r@ == spec_hash(*self, data@),
    {
        match self {
            HashAlgorithm::CkbHash => blake2b_256_of(data),
            HashAlgorithm::Sha256 => sha256_of(data),
        }
    }
}

/// Whether bit `bitpos` of `n` is set.
pub open spec fn bit_set(n: u64, bitpos: u64) -> bool {
    n & (1u64 << bitpos) != 0
}

/// `res` with bit `bitpos` flipped, counting bits from the low end of byte 0.
pub open spec fn flip_bit(res: Seq<u8>, bitpos: u64) -> Seq<u8> {
    res.update((bitpos / 8) as int, res[(bitpos / 8) as int] ^ (1u8 << ((bitpos % 8) as u8)))
}

/// The secret after the first `k` of the 48 steps of the commitment-secret
/// chain: step `i` looks at bit `47 - i` of `n` and, where it is set,
/// flips that bit of the running value and rehashes it.
pub open spec fn secret_after(seed: Seq<u8>, n: u64, k: nat) -> Seq<u8>
    decreases k,
{
    if k == 0 {
        seed
    } else {
        let prev = secret_after(seed, n, (k - 1) as nat);
        let bitpos = (48 - k) as u64;
        if bit_set(n, bitpos) {
            ckb_blake2b_256(flip_bit(prev, bitpos))
        } else {
            prev
        }
    }
}

/// The per-commitment secret of commitment `n`, from the channel's commitment seed.
pub open spec fn commitment_secret(seed: Seq<u8>, n: u64) -> Seq<u8> {
    secret_after(seed, n, 48)
}

/// The per-commitment secret of commitment `commitment_number`; the
/// number is meant to lie in `[0, 2^48)`, higher bits are not looked at.
pub fn get_commitment_secret(commitment_seed: &[u8; 32], commitment_number: u64) -> (r: [u8; 32])
    ensures
        r@ == commitment_secret(commitment_seed@, commitment_number),
{
    let mut res: [u8; 32] = *commitment_seed;
    let mut i: u64 = 0;
    while i < 48
        invariant
            i <= 48,
            res@ == secret_after(commitment_seed@, commitment_number, i as nat),
        decreases 48 - i,
    {
        let bitpos: u64 = 47 - i;
        if commitment_number & (1u64 << bitpos) != 0 {
            let idx: usize = (bitpos / 8) as usize;
            let mask: u8 = 1u8 << ((bitpos % 8) as u8);
            let ghost before = res@;
            res[idx] = res[idx] ^ mask;
            proof {
                assert(res@ =~= flip_bit(before, bitpos));
            }
            res = blake2b_256_of(res.as_slice());
        }
        i = i + 1;
    }
    res
}

/// The per-commitment point of commitment `commitment_number`: the public
/// key of its secret, when that secret is a valid key.
pub fn get_commitment_point(commitment_seed: &[u8; 32], commitment_number: u64) -> (r: Option<Pubkey>)
    ensures
        opt_view(r) == secp_public_key(commitment_secret(commitment_seed@, commitment_number)),
{
    let secret = get_commitment_secret(commitment_seed, commitment_number);
    secret_key_to_public(&secret)
}

/// Lexicographic order on byte strings of equal length.
pub open spec fn lex_le(a: Seq<u8>, b: Seq<u8>) -> bool {
    a == b || exists|i: int|
        0 <= i < a.len() && i < b.len() && a[i] < b[i] && a.subrange(0, i) == b.subrange(0, i)
}

/// Whether `a` sorts before or equal to `b` byte by byte.
pub fn bytes_le(a: &[u8], b: &[u8]) -> (r: bool)
    requires
        a@.len() == b@.len(),
    ensures
        r == lex_le(a@, b@),
{
    let mut i: usize = 0;
    while i < a.len()
        invariant
            i <= a@.len(),
            a@.len() == b@.len(),
            a@.subrange(0, i as int) == b@.subrange(0, i as int),
        decreases a@.len() - i,
    {
        if a[i] != b[i] {
            proof {
                if a[i as int] > b[i as int] {
                    assert forall|j: int|
                        0 <= j < a@.len() && j < b@.len() && a@[j] < b@[j] implies a@.subrange(0, j)
                        != b@.subrange(0, j) by {
                        if j > i {
                            assert(a@.subrange(0, j)[i as int] != b@.subrange(0, j)[i as int]);
                        } else if j < i {
                            assert(a@.subrange(0, i as int)[j] == b@.subrange(0, i as int)[j]);
                        }
                    }
                    assert(a@ != b@ ==> a@[i as int] != b@[i as int]);
                }
            }
            return a[i] < b[i];
        }
        proof {
            assert(a@.subrange(0, i + 1) =~= a@.subrange(0, i as int).push(a@[i as int]));
            assert(b@.subrange(0, i + 1) =~= b@.subrange(0, i as int).push(b@[i as int]));
        }
        i = i + 1;
    }
    proof {
        assert(a@ =~= a@.subrange(0, a@.len() as int));
        assert(b@ =~= b@.subrange(0, b@.len() as int));
    }
    true
}

/// The channel id of two TLC base keys: the digest of the two keys, in
/// lexicographic order, one after the other.
pub open spec fn channel_id_of(k1: Seq<u8>, k2: Seq<u8>) -> Seq<u8> {
    if lex_le(k1, k2) {
        ckb_blake2b_256(k1 + k2)
    } else {
        ckb_blake2b_256(k2 + k1)
    }
}

/// Concatenate two byte strings.
pub fn concat_bytes(a: &[u8], b: &[u8]) -> (r: Vec<u8>)
    ensures
        r@ == a@ + b@,
{
    let mut out: Vec<u8> = Vec::new();
    let mut i: usize = 0;
    while i < a.len()
        invariant
            i <= a@.len(),
            out@ == a@.subrange(0, i as int),
        decreases a@.len() - i,
    {
        proof {
            assert(a@.subrange(0, i + 1) =~= a@.subrange(0, i as int).push(a@[i as int]));
        }
        out.push(a[i]);
        i = i + 1;
    }
    let mut j: usize = 0;
    while j < b.len()
        invariant
            j <= b@.len(),
            out@ == a@ + b@.subrange(0, j as int),
        decreases b@.len() - j,
    {
        proof {
            assert(a@ + b@.subrange(0, j + 1) =~= (a@ + b@.subrange(0, j as int)).push(b@[j as int]));
        }
        out.push(b[j]);
        j = j + 1;
    }
    proof {
        assert(a@.subrange(0, a@.len() as int) =~= a@);
        assert(b@.subrange(0, b@.len() as int) =~= b@);
    }
    out
}

/// The stable channel id, from the pair of TLC base keys in either order.
pub fn derive_channel_id_from_tlc_keys(tlc_basepoint1: &Pubkey, tlc_basepoint2: &Pubkey) -> (r: Hash256)
    ensures
        r@ == channel_id_of(tlc_basepoint1@, tlc_basepoint2@),
{
    let preimage = if bytes_le(tlc_basepoint1.as_slice(), tlc_basepoint2.as_slice()) {
        concat_bytes(tlc_basepoint1.as_slice(), tlc_basepoint2.as_slice())
    } else {
        concat_bytes(tlc_basepoint2.as_slice(), tlc_basepoint1.as_slice())
    };
    blake2b_256_of(preimage.as_slice())
}

/// The temporary channel id: the digest of one TLC base key followed by 33 zero bytes.
pub fn derive_temp_channel_id_from_tlc_key(tlc_basepoint: &Pubkey) -> (r: Hash256)
    ensures
        r@ == ckb_blake2b_256(tlc_basepoint@ + Seq::new(33, |_i: int| 0u8)),
{
    let zeros = [0u8; 33];
    let preimage = concat_bytes(tlc_basepoint.as_slice(), zeros.as_slice());
    proof {
        assert(zeros@ =~= Seq::new(33, |_i: int| 0u8));
    }
    blake2b_256_of(preimage.as_slice())
}

/// The tweak that a commitment point applies to a base key: its digest.
pub fn get_tweak_by_commitment_point(commitment_point: &Pubkey) -> (r: [u8; 32])
    ensures
        r@ == ckb_blake2b_256(commitment_point@),
{
    blake2b_256_of(commitment_point.as_slice())
}

/// The secret key of a commitment: the base secret tweaked by the point's digest.
pub fn derive_private_key(secret: &Privkey, commitment_point: &Pubkey) -> (r: Option<Privkey>)
    ensures
        opt_view(r) == secp_tweak_secret_key(secret@, ckb_blake2b_256(commitment_point@)),
{
    let tweak = get_tweak_by_commitment_point(commitment_point);
    tweak_secret_key(secret, &tweak)
}

/// The public key of a commitment: the base key tweaked by the point's digest.
pub fn derive_public_key(base_key: &Pubkey, commitment_point: &Pubkey) -> (r: Option<Pubkey>)
    ensures
        opt_view(r) == secp_tweak_public_key(base_key@, ckb_blake2b_256(commitment_point@)),
{
    let tweak = get_tweak_by_commitment_point(commitment_point);
    tweak_public_key(base_key, &tweak)
}

pub fn derive_payment_pubkey(base_key: &Pubkey, commitment_point: &Pubkey) -> (r: Option<Pubkey>)
    ensures
        opt_view(r) == secp_tweak_public_key(base_key@, ckb_blake2b_256(commitment_point@)),
{
    derive_public_key(base_key, commitment_point)
}

pub fn derive_delayed_payment_pubkey(base_key: &Pubkey, commitment_point: &Pubkey) -> (r: Option<Pubkey>)
    ensures
        opt_view(r) == secp_tweak_public_key(base_key@, ckb_blake2b_256(commitment_point@)),
{
    derive_public_key(base_key, commitment_point)
}

pub fn derive_tlc_pubkey(base_key: &Pubkey, commitment_point: &Pubkey) -> (r: Option<Pubkey>)
    ensures
        opt_view(r) == secp_tweak_public_key(base_key@, ckb_blake2b_256(commitment_point@)),
{
    derive_public_key(base_key, commitment_point)
}

/// One side's keys that stay fixed over the life of a channel.
#[derive(Copy, Clone, Debug)]
pub struct ChannelBasePublicKeys {
    /// The key in the funding cell's 2-of-2 aggregate.
    pub funding_pubkey: Pubkey,
    /// The base point of the per-commitment TLC keys.
    pub tlc_base_key: Pubkey,
}

/// The channel's own secrets, held in memory.
#[derive(Copy, Clone, Debug)]
pub struct InMemorySigner {
    pub funding_key: Privkey,
    pub tlc_base_key: Privkey,
    pub musig2_base_nonce: Privkey,
    pub commitment_seed: [u8; 32],
}

impl InMemorySigner {
    /// The public halves of the funding key and the TLC base key, when both are valid keys.
    pub fn get_base_public_keys(&self) -> (r: Option<ChannelBasePublicKeys>)
        ensures
            r is Some <==> (secp_public_key(self.funding_key@) is Some && secp_public_key(
                self.tlc_base_key@,
            ) is Some),
            r is Some ==> Some(r.unwrap().funding_pubkey@) == secp_public_key(self.funding_key@)
                && Some(r.unwrap().tlc_base_key@) == secp_public_key(self.tlc_base_key@),
    {
        let funding_pubkey = secret_key_to_public(&self.funding_key);
        let tlc_base_key = secret_key_to_public(&self.tlc_base_key);
        match (funding_pubkey, tlc_base_key) {
            (Some(funding_pubkey), Some(tlc_base_key)) => Some(
                ChannelBasePublicKeys { funding_pubkey, tlc_base_key },
            ),
            _ => None,
        }
    }

    pub fn get_commitment_point(&self, commitment_number: u64) -> (r: Option<Pubkey>)
        ensures
            opt_view(r) == secp_public_key(commitment_secret(self.commitment_seed@, commitment_number)),
    {
        get_commitment_point(&self.commitment_seed, commitment_number)
    }

    pub fn get_commitment_secret(&self, commitment_number: u64) -> (r: [u8; 32])
        ensures
            r@ == commitment_secret(self.commitment_seed@, commitment_number),
    {
        get_commitment_secret(&self.commitment_seed, commitment_number)
    }

    /// The musig2 nonce seed of a commitment: the base nonce key tweaked by
    /// that commitment's point.
    pub fn derive_musig2_nonce(&self, commitment_number: u64) -> (r: Option<[u8; 32]>)
        ensures
            r is Some ==> secp_public_key(commitment_secret(self.commitment_seed@, commitment_number)) is Some,
            match secp_public_key(commitment_secret(self.commitment_seed@, commitment_number)) {
                Some(point) => opt_view(r) == secp_tweak_secret_key(self.musig2_base_nonce@, ckb_blake2b_256(point)),
                None => r is None,
            },
    {
        match self.get_commitment_point(commitment_number) {
            Some(point) => derive_private_key(&self.musig2_base_nonce, &point),
            None => None,
        }
    }

    /// The TLC secret key of a commitment: the TLC base key tweaked by that
    /// commitment's point.
    pub fn derive_tlc_key(&self, new_commitment_number: u64) -> (r: Option<Privkey>)
        ensures
            r is Some ==> secp_public_key(commitment_secret(self.commitment_seed@, new_commitment_number)) is Some,
            match secp_public_key(commitment_secret(self.commitment_seed@, new_commitment_number)) {
                Some(point) => opt_view(r) == secp_tweak_secret_key(self.tlc_base_key@, ckb_blake2b_256(point)),
                None => r is None,
            },
    {
        match self.get_commitment_point(new_commitment_number) {
            Some(point) => derive_private_key(&self.tlc_base_key, &point),
            None => None,
        }
    }
}

} // verus!
