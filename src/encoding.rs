use vstd::prelude::*;
use vstd::multiset::Multiset;
use vstd::seq_lib::lemma_multiset_commutative;
use crate::crypto::{blake2b_256_of, ckb_blake2b_256, Pubkey};
use crate::tlc::{htlc_type_of, Hash256, HashAlgorithm, TLCId};

verus! {

broadcast use vstd::seq_lib::group_to_multiset_ensures;

/// The byte length of a funding-cell witness.
pub const FUNDING_CELL_WITNESS_LEN: usize = 112;

/// The byte length of a commitment-cell witness.
pub const COMMITMENT_CELL_WITNESS_LEN: usize = 113;

/// The unlock-type byte of a commitment-cell witness.
pub const COMMITMENT_UNLOCK_TYPE: u8 = 0xFE;

/// The empty witness-args prefix of both witnesses, kept for token-script compatibility.
pub open spec fn witness_prefix() -> Seq<u8> {
    seq![16u8, 0, 0, 0, 16, 0, 0, 0, 16, 0, 0, 0, 16, 0, 0, 0]
}

/// The kinds of a transaction's `since` field.
#[derive(Copy, Clone, Debug, PartialEq, Eq, Structural)]
pub enum SinceType {
    BlockNumber,
    EpochNumberWithFraction,
    Timestamp,
}

/// The `since` value: bit 63 marks a relative lock, bits 61 and 62 the
/// metric (none for a block number, bit 61 for an epoch, bit 62 for a
/// timestamp), the rest is the value.
pub open spec fn spec_since(ty: SinceType, value: u64, is_relative: bool) -> u64 {
    let with_type = match ty {
        SinceType::BlockNumber => value,
        SinceType::EpochNumberWithFraction => 0x2000_0000_0000_0000u64 | value,
        SinceType::Timestamp => 0x4000_0000_0000_0000u64 | value,
    };
    if is_relative {
        0x8000_0000_0000_0000u64 | with_type
    } else {
        with_type
    }
}

pub fn since_value(ty: SinceType, value: u64, is_relative: bool) -> (r: u64)
    ensures
        r == spec_since(ty, value, is_relative),
{
    let with_type = match ty {
        SinceType::BlockNumber => value,
        SinceType::EpochNumberWithFraction => 0x2000_0000_0000_0000u64 | value,
        SinceType::Timestamp => 0x4000_0000_0000_0000u64 | value,
    };
    if is_relative {
        0x8000_0000_0000_0000u64 | with_type
    } else {
        with_type
    }
}

/// Byte `i` of `v` counted from the low end.
pub open spec fn byte_of(v: u128, i: nat) -> u8 {
    ((v >> (8 * i)) & 0xff) as u8
}

/// The `n` low bytes of `v`, lowest first.
pub open spec fn le_bytes(v: u128, n: nat) -> Seq<u8> {
    Seq::new(n, |i: int| byte_of(v, i as nat))
}

/// The `n` low bytes of `v`, highest first.
pub open spec fn be_bytes(v: u128, n: nat) -> Seq<u8> {
    Seq::new(n, |i: int| byte_of(v, (n - 1 - i) as nat))
}

/// Append the `n` low bytes of `v` to `out`, lowest first (or highest first when `big_endian`).
pub fn push_int_bytes(out: &mut Vec<u8>, v: u128, n: usize, big_endian: bool)
    requires
        n <= 16,
    ensures
        final(out)@ == old(out)@ + if big_endian { be_bytes(v, n as nat) } else { le_bytes(v, n as nat) },
{
    let ghost start = old(out)@;
    let ghost target = if big_endian { be_bytes(v, n as nat) } else { le_bytes(v, n as nat) };
    let mut i: usize = 0;
    while i < n
        invariant
            i <= n,
            n <= 16,
            target == if big_endian { be_bytes(v, n as nat) } else { le_bytes(v, n as nat) },
            out@ == start + target.subrange(0, i as int),
        decreases n - i,
    {
        let k: usize = if big_endian { n - 1 - i } else { i };
        let b: u8 = ((v >> ((8 * k) as u32)) & 0xff) as u8;
        proof {
            assert(b == byte_of(v, k as nat));
            assert(target[i as int] == b);
            assert(start + target.subrange(0, i + 1) =~= (start + target.subrange(0, i as int)).push(b));
        }
        out.push(b);
        i = i + 1;
    }
    proof {
        assert(target.subrange(0, n as int) =~= target);
    }
}

/// Append all of `src` to `out`.
pub fn push_bytes(out: &mut Vec<u8>, src: &[u8])
    ensures
        final(out)@ == old(out)@ + src@,
{
    let ghost start = old(out)@;
    let mut i: usize = 0;
    while i < src.len()
        invariant
            i <= src@.len(),
            out@ == start + src@.subrange(0, i as int),
        decreases src@.len() - i,
    {
        proof {
            assert(start + src@.subrange(0, i + 1) =~= (start + src@.subrange(0, i as int)).push(src@[i as int]));
        }
        out.push(src[i]);
        i = i + 1;
    }
    proof {
        assert(src@.subrange(0, src@.len() as int) =~= src@);
    }
}

/// Append the fixed sixteen-byte witness prefix.
fn push_witness_prefix(out: &mut Vec<u8>)
    ensures
        final(out)@ == old(out)@ + witness_prefix(),
{
    let prefix: [u8; 16] = [16, 0, 0, 0, 16, 0, 0, 0, 16, 0, 0, 0, 16, 0, 0, 0];
    proof {
        assert(prefix@ =~= witness_prefix());
    }
    push_bytes(out, prefix.as_slice());
}

/// The funding-cell witness: prefix, x-only aggregated key, aggregated signature.
pub fn create_witness_for_funding_cell(lock_key_xonly: [u8; 32], signature: [u8; 64]) -> (r: Vec<u8>)
    ensures
        r@ == witness_prefix() + lock_key_xonly@ + signature@,
        r@.len() == FUNDING_CELL_WITNESS_LEN,
{
    let mut w: Vec<u8> = Vec::new();
    push_witness_prefix(&mut w);
    push_bytes(&mut w, lock_key_xonly.as_slice());
    push_bytes(&mut w, signature.as_slice());
    proof {
        assert(w@ =~= witness_prefix() + lock_key_xonly@ + signature@);
    }
    w
}

/// The commitment-cell witness: prefix, unlock type, x-only aggregated key, aggregated signature.
pub fn create_witness_for_commitment_cell(lock_key_xonly: [u8; 32], signature: [u8; 64]) -> (r: Vec<u8>)
    ensures
        r@ == witness_prefix() + seq![COMMITMENT_UNLOCK_TYPE] + lock_key_xonly@ + signature@,
        r@.len() == COMMITMENT_CELL_WITNESS_LEN,
{
    let mut w: Vec<u8> = Vec::new();
    push_witness_prefix(&mut w);
    w.push(COMMITMENT_UNLOCK_TYPE);
    push_bytes(&mut w, lock_key_xonly.as_slice());
    push_bytes(&mut w, signature.as_slice());
    proof {
        assert(w@ =~= witness_prefix() + seq![COMMITMENT_UNLOCK_TYPE] + lock_key_xonly@ + signature@);
    }
    w
}

/// A TLC as it enters the commitment lock: its id as the commitment's
/// holder names it, and the two per-commitment TLC keys.
#[derive(Copy, Clone, Debug)]
pub struct HtlcEntry {
    pub tlc_id: TLCId,
    pub hash_algorithm: HashAlgorithm,
    pub amount: u128,
    pub payment_hash: Hash256,
    pub expiry: u64,
    pub local_key: Pubkey,
    pub remote_key: Pubkey,
}

impl HtlcEntry {
    pub open spec fn spec_flip(self) -> HtlcEntry {
        HtlcEntry { tlc_id: self.tlc_id.spec_flip(), ..self }
    }
}

/// The encoding of one entry: type byte, amount (16 bytes, low first), the
/// first 20 bytes of the payment hash, both keys, and the absolute
/// timestamp `since` of the expiry (8 bytes, low first).
pub open spec fn entry_bytes(e: HtlcEntry) -> Seq<u8> {
    seq![htlc_type_of(e.tlc_id, e.hash_algorithm)] + le_bytes(e.amount, 16) + e.payment_hash@.subrange(0, 20)
        + e.local_key@ + e.remote_key@ + le_bytes(
        spec_since(SinceType::Timestamp, e.expiry, false) as u128,
        8,
    )
}

/// The encodings of `s`, one after the other.
pub open spec fn entries_bytes(s: Seq<HtlcEntry>) -> Seq<u8>
    decreases s.len(),
{
    if s.len() == 0 {
        Seq::empty()
    } else {
        entries_bytes(s.drop_last()) + entry_bytes(s.last())
    }
}

/// Entries in ascending order of their id number.
pub open spec fn sorted_by_number(s: Seq<HtlcEntry>) -> bool {
    forall|i: int, j: int| 0 <= i < j < s.len() ==> (#[trigger] s[i]).tlc_id.spec_number() <= (
    #[trigger] s[j]).tlc_id.spec_number()
}

/// The entries of `s` in the given direction, in order.
pub open spec fn of_direction(s: Seq<HtlcEntry>, received: bool) -> Seq<HtlcEntry> {
    s.filter(|e: HtlcEntry| (e.tlc_id is Received) == received)
}

/// The commitment holder's view of `s`: as is for our own commitment,
/// every id flipped for the peer's.
pub open spec fn holder_view(s: Seq<HtlcEntry>, local: bool) -> Seq<HtlcEntry> {
    if local {
        s
    } else {
        s.map_values(|e: HtlcEntry| e.spec_flip())
    }
}

/// Whether `ordered` is a valid ordering of `s` for the commitment lock:
/// the holder's received TLCs then its offered ones, each sorted by id
/// number.
pub open spec fn htlc_order(s: Seq<HtlcEntry>, local: bool, ordered: Seq<HtlcEntry>) -> bool {
    let v = holder_view(s, local);
    exists|a: Seq<HtlcEntry>, b: Seq<HtlcEntry>|
        ordered == a + b && sorted_by_number(a) && sorted_by_number(b) && a.to_multiset()
            == of_direction(v, true).to_multiset() && b.to_multiset() == of_direction(
            v,
            false,
        ).to_multiset()
}

proof fn lemma_insert_multiset(s: Seq<HtlcEntry>, p: int, e: HtlcEntry)
    requires
        0 <= p <= s.len(),
    ensures
        s.insert(p, e).to_multiset() =~= s.to_multiset().insert(e),
{
    let l = s.subrange(0, p);
    let r = s.subrange(p, s.len() as int);
    assert(s.insert(p, e) =~= l + seq![e] + r);
    assert(s =~= l + r);
    lemma_multiset_commutative(l, seq![e]);
    lemma_multiset_commutative(l + seq![e], r);
    lemma_multiset_commutative(l, r);
    assert(seq![e] =~= Seq::<HtlcEntry>::empty().push(e));
    assert(seq![e].to_multiset() =~= Multiset::empty().insert(e));
}

proof fn lemma_insert_sorted(s: Seq<HtlcEntry>, p: int, e: HtlcEntry)
    requires
        0 <= p <= s.len(),
        sorted_by_number(s),
        forall|j: int| 0 <= j < p ==> (#[trigger] s[j]).tlc_id.spec_number() <= e.tlc_id.spec_number(),
        p < s.len() ==> s[p].tlc_id.spec_number() > e.tlc_id.spec_number(),
    ensures
        sorted_by_number(s.insert(p, e)),
{
    let t = s.insert(p, e);
    assert forall|i: int, j: int| 0 <= i < j < t.len() implies (#[trigger] t[i]).tlc_id.spec_number()
        <= (#[trigger] t[j]).tlc_id.spec_number() by {
        if i < p && j == p {
            assert(t[i] == s[i]);
        } else if i < p && j > p {
            assert(t[i] == s[i] && t[j] == s[j - 1]);
        } else if i == p && j > p {
            assert(t[j] == s[j - 1]);
            assert(s[p].tlc_id.spec_number() <= s[j - 1].tlc_id.spec_number());
        } else if i > p {
            assert(t[i] == s[i - 1] && t[j] == s[j - 1]);
        } else {
            assert(t[i] == s[i] && t[j] == s[j]);
        }
    }
}

/// Insert `e` into `out`, which is sorted by id number, keeping it sorted.
fn insert_sorted(out: &mut Vec<HtlcEntry>, e: HtlcEntry)
    requires
        sorted_by_number(old(out)@),
    ensures
        sorted_by_number(final(out)@),
        final(out)@.to_multiset() == old(out)@.to_multiset().insert(e),
{
    let mut p: usize = 0;
    while p < out.len() && out[p].tlc_id.number() <= e.tlc_id.number()
        invariant
            p <= out@.len(),
            forall|j: int| 0 <= j < p ==> (#[trigger] out@[j]).tlc_id.spec_number() <= e.tlc_id.spec_number(),
        decreases out@.len() - p,
    {
        p = p + 1;
    }
    proof {
        lemma_insert_multiset(out@, p as int, e);
        lemma_insert_sorted(out@, p as int, e);
    }
    out.insert(p, e);
}

/// The encoding of the TLCs in a commitment lock: nothing when there are
/// none, else their count (one byte) and each entry, the holder's received
/// TLCs first and its offered ones after, each part ascending by id.
/// `local` tells whether the commitment is ours; for the peer's, every
/// id is flipped to name it as the peer does.
pub fn get_active_htlcs(entries: &[HtlcEntry], local: bool) -> (r: Vec<u8>)
    ensures
        entries@.len() == 0 ==> r@.len() == 0,
        entries@.len() > 0 ==> exists|ordered: Seq<HtlcEntry>|
            htlc_order(entries@, local, ordered) && r@ == seq![entries@.len() as u8] + entries_bytes(ordered),
{
    let ghost v = holder_view(entries@, local);
    let mut received: Vec<HtlcEntry> = Vec::new();
    let mut offered: Vec<HtlcEntry> = Vec::new();
    let mut i: usize = 0;
    proof {
        assert(v.subrange(0, 0) =~= Seq::<HtlcEntry>::empty());
        assert(of_direction(Seq::<HtlcEntry>::empty(), true) =~= Seq::<HtlcEntry>::empty());
        assert(of_direction(Seq::<HtlcEntry>::empty(), false) =~= Seq::<HtlcEntry>::empty());
    }
    while i < entries.len()
        invariant
            i <= entries@.len(),
            v == holder_view(entries@, local),
            v.len() == entries@.len(),
            sorted_by_number(received@),
            sorted_by_number(offered@),
            received@.to_multiset() == of_direction(v.subrange(0, i as int), true).to_multiset(),
            offered@.to_multiset() == of_direction(v.subrange(0, i as int), false).to_multiset(),
        decreases entries@.len() - i,
    {
        let mut e = entries[i];
        if !local {
            e.tlc_id = e.tlc_id.flip();
        }
        proof {
            assert(e == v[i as int]);
            let p = v.subrange(0, i as int);
            let q = v.subrange(0, i + 1);
            assert(q =~= p.push(e));
            let pr = |x: HtlcEntry| (x.tlc_id is Received) == true;
            let po = |x: HtlcEntry| (x.tlc_id is Received) == false;
            p.lemma_filter_push(e, pr);
            p.lemma_filter_push(e, po);
        }
        if e.tlc_id.is_received() {
            insert_sorted(&mut received, e);
        } else {
            insert_sorted(&mut offered, e);
        }
        i = i + 1;
    }
    proof {
        assert(v.subrange(0, v.len() as int) =~= v);
    }
    let mut out: Vec<u8> = Vec::new();
    if entries.len() == 0 {
        return out;
    }
    out.push(entries.len() as u8);
    let ghost ordered = received@ + offered@;
    proof {
        assert(ordered.subrange(0, 0) =~= Seq::<HtlcEntry>::empty());
        assert(seq![entries@.len() as u8] + entries_bytes(Seq::<HtlcEntry>::empty()) =~= out@);
    }
    let mut k: usize = 0;
    while k < received.len()
        invariant
            k <= received@.len(),
            ordered == received@ + offered@,
            out@ == seq![entries@.len() as u8] + entries_bytes(ordered.subrange(0, k as int)),
        decreases received@.len() - k,
    {
        proof {
            assert(ordered.subrange(0, k + 1).drop_last() =~= ordered.subrange(0, k as int));
            assert(ordered.subrange(0, k + 1).last() == received@[k as int]);
        }
        push_entry(&mut out, &received[k]);
        proof {
            assert(out@ =~= seq![entries@.len() as u8] + entries_bytes(ordered.subrange(0, k + 1)));
        }
        k = k + 1;
    }
    let mut m: usize = 0;
    while m < offered.len()
        invariant
            m <= offered@.len(),
            ordered == received@ + offered@,
            out@ == seq![entries@.len() as u8] + entries_bytes(ordered.subrange(0, received@.len() + m)),
        decreases offered@.len() - m,
    {
        let ghost n = received@.len() + m;
        proof {
            assert(ordered.subrange(0, n + 1).drop_last() =~= ordered.subrange(0, n));
            assert(ordered.subrange(0, n + 1).last() == offered@[m as int]);
        }
        push_entry(&mut out, &offered[m]);
        proof {
            assert(out@ =~= seq![entries@.len() as u8] + entries_bytes(ordered.subrange(0, n + 1)));
        }
        m = m + 1;
    }
    proof {
        assert(ordered.subrange(0, ordered.len() as int) =~= ordered);
        assert(htlc_order(entries@, local, ordered));
    }
    out
}

/// Append the encoding of one entry.
fn push_entry(out: &mut Vec<u8>, e: &HtlcEntry)
    ensures
        final(out)@ == old(out)@ + entry_bytes(*e),
{
    let ghost start = old(out)@;
    let htlc_type = crate::tlc::AddTlcInfo::htlc_type_byte(e.tlc_id, e.hash_algorithm);
    out.push(htlc_type);
    push_int_bytes(out, e.amount, 16, false);
    let (short_hash, _) = e.payment_hash.as_slice().split_at(20);
    push_bytes(out, short_hash);
    push_bytes(out, e.local_key.as_slice());
    push_bytes(out, e.remote_key.as_slice());
    let since = since_value(SinceType::Timestamp, e.expiry, false);
    push_int_bytes(out, since as u128, 8, false);
    proof {
        assert(out@ =~= start + entry_bytes(*e));
    }
}


/// The args of the commitment lock script: the first 20 bytes of the
/// digest of the x-only aggregated key, the relative epoch `since` of the
/// delay (8 bytes, low first), the commitment number (8 bytes, high first),
/// and, when there are TLCs, the first 20 bytes of the digest of their encoding.
pub open spec fn spec_commitment_lock_args(
    x_only_aggregated_pubkey: Seq<u8>,
    commitment_delay_epoch: u64,
    commitment_number: u64,
    htlcs: Seq<u8>,
) -> Seq<u8> {
    ckb_blake2b_256(x_only_aggregated_pubkey).subrange(0, 20) + le_bytes(
        spec_since(SinceType::EpochNumberWithFraction, commitment_delay_epoch, true) as u128,
        8,
    ) + be_bytes(commitment_number as u128, 8) + if htlcs.len() == 0 {
        Seq::<u8>::empty()
    } else {
        ckb_blake2b_256(htlcs).subrange(0, 20)
    }
}

/// The relative epoch `since` of the commitment delay, as lock-args bytes.
pub fn delay_epoch_lock_args_bytes(commitment_delay_epoch: u64) -> (r: Vec<u8>)
    ensures
        r@ == le_bytes(spec_since(SinceType::EpochNumberWithFraction, commitment_delay_epoch, true) as u128, 8),
{
    let since = since_value(SinceType::EpochNumberWithFraction, commitment_delay_epoch, true);
    let mut out: Vec<u8> = Vec::new();
    push_int_bytes(&mut out, since as u128, 8, false);
    proof {
        assert(out@ =~= le_bytes(since as u128, 8));
    }
    out
}

/// Build the args of the commitment lock script.
pub fn commitment_lock_args(
    x_only_aggregated_pubkey: &[u8; 32],
    commitment_delay_epoch: u64,
    commitment_number: u64,
    htlcs: &[u8],
) -> (r: Vec<u8>)
    ensures
        r@ == spec_commitment_lock_args(x_only_aggregated_pubkey@, commitment_delay_epoch, commitment_number, htlcs@),
{
    let key_hash = blake2b_256_of(x_only_aggregated_pubkey.as_slice());
    let (key_prefix, _) = key_hash.as_slice().split_at(20);
    let mut out: Vec<u8> = Vec::new();
    push_bytes(&mut out, key_prefix);
    let since = since_value(SinceType::EpochNumberWithFraction, commitment_delay_epoch, true);
    push_int_bytes(&mut out, since as u128, 8, false);
    push_int_bytes(&mut out, commitment_number as u128, 8, true);
    if htlcs.len() > 0 {
        let htlc_hash = blake2b_256_of(htlcs);
        let (htlc_prefix, _) = htlc_hash.as_slice().split_at(20);
        push_bytes(&mut out, htlc_prefix);
    }
    proof {
        assert(out@ =~= spec_commitment_lock_args(
            x_only_aggregated_pubkey@,
            commitment_delay_epoch,
            commitment_number,
            htlcs@,
        ));
    }
    out
}

} // verus!
