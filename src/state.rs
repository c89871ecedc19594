use vstd::prelude::*;
use crate::channel::{
    AWAITING_PENDING_TLCS, COOPERATIVE, has_flags,
    check_tlc_expiry, MAX_PAYMENT_TLC_EXPIRY_LIMIT, ChannelConstraints, ChannelState, THEIR_INIT_SENT, DEFAULT_COMMITMENT_FEE_RATE, DEFAULT_FEE_RATE,
    MAX_TLC_NUMBER_IN_FLIGHT, ProcessingChannelError, PublicChannelInfo, CHANNEL_DISABLED_FLAG,
    MESSAGE_OF_NODE1_FLAG, MESSAGE_OF_NODE2_FLAG, MIN_TLC_EXPIRY_DELTA,
};
use crate::crypto::{
    bytes_le, channel_id_of, derive_channel_id_from_tlc_keys, derive_temp_channel_id_from_tlc_key, ckb_blake2b_256, commitment_secret, lex_le, secp_public_key, secp_tweak_public_key, spec_hash,
    ChannelBasePublicKeys, InMemorySigner, Pubkey,
};
use crate::ledger::{
    lemma_below_committed, lemma_below_drop_removed_adds, lemma_below_drop_removes, lemma_below_mark,
    lemma_below_merge,
    has_add, has_live_add, has_live_hash, last_resolution, merge_ops, contains_op, lemma_drop_entry_contains, drop_entry, live_count, live_tlc_summary, find_live_payment_hash, views, drop_removed_adds,
    drop_removes_of, mark_removed_in, lemma_removed_add_gone, live_total, unique_ops, TlcState,
};
use crate::settlement::{committed_pending, pending_fulfilled_amount, replay};
use crate::encoding::{commitment_lock_args, spec_commitment_lock_args};
use crate::musig::{
    musig2_aggregate, musig2_partial_signature, musig2_partial_valid,
    aggregated_xonly_pubkey, musig2_agg_xonly, musig2_public_nonce, public_nonce_of, Musig2SignContext,
    Musig2VerifyContext, PubNonceBytes,
};
use crate::crypto::{opt_view, secp_tweak_secret_key};
use crate::tlc::{
    hash_equal, AddTlcInfo, TlcKind, RemoveTlcInfo, RemoveTlcView, RemoveReasonView, RetryableRemoveTlc,
    RetryableView, AddTlcView, CommitmentNumbers, Hash256, HashAlgorithm, RemoveTlcReason,
    TLCId, TlcKindView,
};

verus! {


/// One side's cooperative-close proposal.
#[derive(Debug)]
pub struct ShutdownInfo {
    pub close_script: Vec<u8>,
    pub fee_rate: u64,
    /// The side's partial signature over the shutdown transaction, once made.
    pub signature: Option<[u8; 32]>,
}

impl ShutdownInfo {
    pub open spec fn same_as(&self, other: &ShutdownInfo) -> bool {
        self.close_script@ == other.close_script@ && self.fee_rate == other.fee_rate && self.signature
            == other.signature
    }
}

impl Clone for ShutdownInfo {
    fn clone(&self) -> (r: Self)
        ensures
            r.same_as(self),
    {
        let close_script = self.close_script.clone();
        proof {
            assert(close_script@ =~= self.close_script@);
        }
        ShutdownInfo { close_script, fee_rate: self.fee_rate, signature: self.signature }
    }
}

/// The view of an optional byte vector.
pub open spec fn opt_bytes(v: Option<Vec<u8>>) -> Option<Seq<u8>> {
    match v {
        Some(b) => Some(b@),
        None => None,
    }
}

/// Both optional shutdown proposals are absent, or present and the same.
pub open spec fn same_shutdown(a: Option<ShutdownInfo>, b: Option<ShutdownInfo>) -> bool {
    match (a, b) {
        (Some(x), Some(y)) => x.same_as(&y),
        (None, None) => true,
        _ => false,
    }
}

fn clone_shutdown(v: &Option<ShutdownInfo>) -> (r: Option<ShutdownInfo>)
    ensures
        same_shutdown(r, *v),
{
    match v {
        Some(info) => Some(info.clone()),
        None => None,
    }
}

fn copy_pairs<T: Copy>(v: &Vec<(u64, T)>) -> (r: Vec<(u64, T)>)
    ensures
        r@ == v@,
{
    let mut out: Vec<(u64, T)> = Vec::new();
    let mut i: usize = 0;
    while i < v.len()
        invariant
            i <= v@.len(),
            out@ == v@.subrange(0, i as int),
        decreases v@.len() - i,
    {
        proof {
            assert(v@.subrange(0, i + 1) =~= v@.subrange(0, i as int).push(v@[i as int]));
        }
        out.push(v[i]);
        i = i + 1;
    }
    proof {
        assert(v@.subrange(0, v@.len() as int) =~= v@);
    }
    out
}

fn clone_bytes(v: &Option<Vec<u8>>) -> (r: Option<Vec<u8>>)
    ensures
        opt_bytes(r) == opt_bytes(*v),
{
    match v {
        Some(b) => {
            let c = b.clone();
            proof {
                assert(c@ =~= b@);
            }
            Some(c)
        },
        None => None,
    }
}

/// A request to offer a new TLC.
#[derive(Debug)]
pub struct AddTlcCommand {
    pub amount: u128,
    pub payment_hash: Hash256,
    pub expiry: u64,
    pub hash_algorithm: HashAlgorithm,
    /// The onion packet for the next hop.
    pub onion_packet: Option<Vec<u8>>,
    /// The secret used to obfuscate errors coming back; all zero when there is none.
    pub shared_secret: Hash256,
    /// The upstream channel and TLC of a forwarded payment.
    pub previous_tlc: Option<(Hash256, u64)>,
}

/// The id given to a TLC we offered.
#[derive(Copy, Clone, Debug)]
pub struct AddTlcResponse {
    pub tlc_id: u64,
}

/// A request to resolve a TLC the peer offered.
#[derive(Debug)]
pub struct RemoveTlcCommand {
    pub id: u64,
    pub reason: RemoveTlcReason,
}

/// A request to change the settings of a public channel.
#[derive(Copy, Clone, Debug)]
pub struct UpdateCommand {
    pub enabled: Option<bool>,
    pub tlc_expiry_delta: Option<u64>,
    pub tlc_minimum_value: Option<u128>,
    pub tlc_fee_proportional_millionths: Option<u128>,
}

/// The peer's `AddTlc` message.
#[derive(Debug)]
pub struct AddTlc {
    pub channel_id: Hash256,
    pub tlc_id: u64,
    pub amount: u128,
    pub payment_hash: Hash256,
    pub expiry: u64,
    pub hash_algorithm: HashAlgorithm,
    pub onion_packet: Option<Vec<u8>>,
}

/// The peer's `RemoveTlc` message.
#[derive(Debug)]
pub struct RemoveTlc {
    pub channel_id: Hash256,
    pub tlc_id: u64,
    pub reason: RemoveTlcReason,
}

/// The fields of a channel update before it is signed (the funding outpoint
/// is added where the funding transaction is known).
#[derive(Copy, Clone, Debug, PartialEq, Eq, Structural)]
pub struct UnsignedChannelUpdate {
    /// Milliseconds since the Unix epoch.
    pub timestamp: u64,
    /// Which node of the channel sends it.
    pub message_flags: u32,
    /// Whether the channel is disabled.
    pub channel_flags: u32,
    pub tlc_expiry_delta: u64,
    pub tlc_minimum_value: u128,
    pub tlc_fee_proportional_millionths: u128,
}

/// Marks a channel that is closed.
#[derive(Copy, Clone, Debug, PartialEq, Eq, Structural)]
pub struct ClosedChannel {}

/// The persistent state of one channel.
#[derive(Debug)]
pub struct ChannelActorState {
    pub state: ChannelState,
    /// Present only on a public channel.
    pub public_channel_info: Option<PublicChannelInfo>,
    /// Our node key.
    pub local_pubkey: Pubkey,
    /// The peer's node key.
    pub remote_pubkey: Pubkey,
    pub id: Hash256,
    /// The type script of the token the channel holds, when it is not the native currency.
    pub funding_udt_type_script: Option<Vec<u8>>,
    /// Whether the peer opened the channel.
    pub is_acceptor: bool,
    /// Our balance; it changes only when a TLC is fulfilled.
    pub to_local_amount: u128,
    /// The peer's balance; it changes only when a TLC is fulfilled.
    pub to_remote_amount: u128,
    /// Native capacity each side keeps for cell occupancy and fees.
    pub local_reserved_ckb_amount: u64,
    pub remote_reserved_ckb_amount: u64,
    pub commitment_fee_rate: u64,
    /// The relative delay of the commitment output, as an epoch number with fraction.
    pub commitment_delay_epoch: u64,
    pub funding_fee_rate: u64,
    pub signer: InMemorySigner,
    pub local_channel_public_keys: ChannelBasePublicKeys,
    pub commitment_numbers: CommitmentNumbers,
    pub local_constraints: ChannelConstraints,
    pub remote_constraints: ChannelConstraints,
    pub tlc_state: TlcState,
    pub remote_shutdown_script: Option<Vec<u8>>,
    pub local_shutdown_script: Vec<u8>,
    /// The peer nonce our last `CommitmentSigned` used, kept until its `RevokeAndAck`.
    pub last_used_nonce_in_commitment_signed: Option<PubNonceBytes>,
    /// The peer's nonces by commitment number; at most two are kept.
    pub remote_nonces: Vec<(u64, PubNonceBytes)>,
    /// The peer's per-commitment points by commitment number.
    pub remote_commitment_points: Vec<(u64, Pubkey)>,
    pub remote_channel_public_keys: Option<ChannelBasePublicKeys>,
    pub local_shutdown_info: Option<ShutdownInfo>,
    pub remote_shutdown_info: Option<ShutdownInfo>,
    /// While set, every message but `ReestablishChannel` is dropped.
    pub reestablishing: bool,
    /// When the channel was created, in milliseconds since the Unix epoch.
    pub created_at: u64,
}

/// Two channel states hold the same values, byte vectors and the ledger compared by their views.
pub open spec fn same_channel_state(a: &ChannelActorState, b: &ChannelActorState) -> bool {
    &&& a.state == b.state
    &&& a.public_channel_info == b.public_channel_info
    &&& a.local_pubkey == b.local_pubkey
    &&& a.remote_pubkey == b.remote_pubkey
    &&& a.id == b.id
    &&& opt_bytes(a.funding_udt_type_script) == opt_bytes(b.funding_udt_type_script)
    &&& a.is_acceptor == b.is_acceptor
    &&& a.to_local_amount == b.to_local_amount
    &&& a.to_remote_amount == b.to_remote_amount
    &&& a.local_reserved_ckb_amount == b.local_reserved_ckb_amount
    &&& a.remote_reserved_ckb_amount == b.remote_reserved_ckb_amount
    &&& a.commitment_fee_rate == b.commitment_fee_rate
    &&& a.commitment_delay_epoch == b.commitment_delay_epoch
    &&& a.funding_fee_rate == b.funding_fee_rate
    &&& a.signer == b.signer
    &&& a.local_channel_public_keys == b.local_channel_public_keys
    &&& a.commitment_numbers == b.commitment_numbers
    &&& a.local_constraints == b.local_constraints
    &&& a.remote_constraints == b.remote_constraints
    &&& a.tlc_state.local().ops() == b.tlc_state.local().ops()
    &&& a.tlc_state.local().committed_len() == b.tlc_state.local().committed_len()
    &&& a.tlc_state.local().next_id() == b.tlc_state.local().next_id()
    &&& a.tlc_state.remote().ops() == b.tlc_state.remote().ops()
    &&& a.tlc_state.remote().committed_len() == b.tlc_state.remote().committed_len()
    &&& a.tlc_state.remote().next_id() == b.tlc_state.remote().next_id()
    &&& a.tlc_state.retry_queue() == b.tlc_state.retry_queue()
    &&& a.tlc_state.spec_waiting_ack() == b.tlc_state.spec_waiting_ack()
    &&& opt_bytes(a.remote_shutdown_script) == opt_bytes(b.remote_shutdown_script)
    &&& a.local_shutdown_script@ == b.local_shutdown_script@
    &&& a.last_used_nonce_in_commitment_signed == b.last_used_nonce_in_commitment_signed
    &&& a.remote_nonces@ == b.remote_nonces@
    &&& a.remote_commitment_points@ == b.remote_commitment_points@
    &&& a.remote_channel_public_keys == b.remote_channel_public_keys
    &&& same_shutdown(a.local_shutdown_info, b.local_shutdown_info)
    &&& same_shutdown(a.remote_shutdown_info, b.remote_shutdown_info)
    &&& a.reestablishing == b.reestablishing
    &&& a.created_at == b.created_at
}

impl Clone for ChannelActorState {
    /// A snapshot of the state, as the store keeps it: equal to the
    /// state it was taken from in every field.
    fn clone(&self) -> (r: Self)
        ensures
            same_channel_state(&r, self),
    {
        let local_shutdown_script = self.local_shutdown_script.clone();
        let remote_nonces = copy_pairs(&self.remote_nonces);
        let remote_commitment_points = copy_pairs(&self.remote_commitment_points);
        proof {
            assert(local_shutdown_script@ =~= self.local_shutdown_script@);
        }
        ChannelActorState {
            state: self.state,
            public_channel_info: self.public_channel_info,
            local_pubkey: self.local_pubkey,
            remote_pubkey: self.remote_pubkey,
            id: self.id,
            funding_udt_type_script: clone_bytes(&self.funding_udt_type_script),
            is_acceptor: self.is_acceptor,
            to_local_amount: self.to_local_amount,
            to_remote_amount: self.to_remote_amount,
            local_reserved_ckb_amount: self.local_reserved_ckb_amount,
            remote_reserved_ckb_amount: self.remote_reserved_ckb_amount,
            commitment_fee_rate: self.commitment_fee_rate,
            commitment_delay_epoch: self.commitment_delay_epoch,
            funding_fee_rate: self.funding_fee_rate,
            signer: self.signer,
            local_channel_public_keys: self.local_channel_public_keys,
            commitment_numbers: self.commitment_numbers,
            local_constraints: self.local_constraints,
            remote_constraints: self.remote_constraints,
            tlc_state: self.tlc_state.clone(),
            remote_shutdown_script: clone_bytes(&self.remote_shutdown_script),
            local_shutdown_script,
            last_used_nonce_in_commitment_signed: self.last_used_nonce_in_commitment_signed,
            remote_nonces,
            remote_commitment_points,
            remote_channel_public_keys: self.remote_channel_public_keys,
            local_shutdown_info: clone_shutdown(&self.local_shutdown_info),
            remote_shutdown_info: clone_shutdown(&self.remote_shutdown_info),
            reestablishing: self.reestablishing,
            created_at: self.created_at,
        }
    }
}

/// The part of a channel state that resolving TLCs changes.
pub struct LedgerView {
    pub local: Seq<TlcKindView>,
    pub remote: Seq<TlcKindView>,
    pub to_local: u128,
    pub to_remote: u128,
    pub resolved: Seq<(TLCId, CommitmentNumbers, RemoveReasonView)>,
}

/// The effect of resolving `id` for `reason` at `at` (see
/// `remove_tlc_with_reason`): nothing unless the TLC is present, not yet
/// removed, and (for a fulfill) its preimage matches and the paying side
/// holds the amount; then a fulfill moves the amount, the TLC is marked
/// removed in both lists and compacted out of its own, and the resolution
/// is recorded.
pub open spec fn remove_step(l: LedgerView, id: TLCId, reason: RemoveReasonView, at: CommitmentNumbers) -> LedgerView {
    let side = if id is Offered { l.local } else { l.remote };
    let flip = if id is Offered { l.remote } else { l.local };
    let cur = the_add(side, id);
    let fulfill = reason is Fulfill;
    let shift_ok = if id is Offered { cur.amount <= l.to_local } else { cur.amount <= l.to_remote };
    if !has_add(side, id) || cur.removed_at is Some || (fulfill && (spec_hash(cur.hash_algorithm, reason->Fulfill_0@)
        != cur.payment_hash@ || !shift_ok)) {
        l
    } else {
        let new_side = drop_removed_adds(mark_removed_in(drop_removes_of(side, id), id, at, reason));
        let new_flip = mark_removed_in(drop_removes_of(flip, id), id, at, reason);
        let (to_local, to_remote) = if !fulfill {
            (l.to_local, l.to_remote)
        } else if id is Offered {
            ((l.to_local - cur.amount) as u128, (l.to_remote + cur.amount) as u128)
        } else {
            ((l.to_local + cur.amount) as u128, (l.to_remote - cur.amount) as u128)
        };
        LedgerView {
            local: if id is Offered { new_side } else { new_flip },
            remote: if id is Offered { new_flip } else { new_side },
            to_local,
            to_remote,
            resolved: l.resolved.push((id, at, reason)),
        }
    }
}

/// Apply, in order, every remove among `staged` at `at`.
pub open spec fn replay_removes(l: LedgerView, staged: Seq<TlcKindView>, at: CommitmentNumbers) -> LedgerView
    decreases staged.len(),
{
    if staged.len() == 0 {
        l
    } else {
        let prev = replay_removes(l, staged.drop_last(), at);
        match staged.last() {
            TlcKindView::RemoveTlc(r) => remove_step(prev, r.tlc_id, r.reason, at),
            _ => prev,
        }
    }
}

/// The message signed over a commitment output: the digest of the
/// serialised outputs (with their data) followed by the commitment-lock
/// args for `number`, without TLCs.
pub open spec fn lock_message(outputs: Seq<u8>, xonly: Seq<u8>, delay: u64, number: u64) -> Seq<u8> {
    ckb_blake2b_256(outputs + spec_commitment_lock_args(xonly, delay, number, Seq::<u8>::empty()))
}

/// Build `lock_message`.
pub fn build_lock_message(outputs: &[u8], xonly: &[u8; 32], delay: u64, number: u64) -> (r: [u8; 32])
    ensures
        r@ == lock_message(outputs@, xonly@, delay, number),
{
    let empty: Vec<u8> = Vec::new();
    let args = commitment_lock_args(xonly, delay, number, empty.as_slice());
    let data = crate::crypto::concat_bytes(outputs, args.as_slice());
    proof {
        assert(empty@ =~= Seq::<u8>::empty());
    }
    crate::crypto::blake2b_256_of(data.as_slice())
}

/// Check the peer's partial signature of `message`, add ours and
/// aggregate the two (theirs first), in the session of keys `key0`, `key1`
/// and nonces `nonce0`, `nonce1`; `None` when any step fails.
pub open spec fn co_sign(
    key0: Seq<u8>,
    key1: Seq<u8>,
    nonce0: Seq<u8>,
    nonce1: Seq<u8>,
    peer_key: Seq<u8>,
    peer_nonce: Seq<u8>,
    seckey: Seq<u8>,
    seed: Seq<u8>,
    partial: Seq<u8>,
    message: Seq<u8>,
) -> Option<Seq<u8>> {
    if !musig2_partial_valid(key0, key1, nonce0, nonce1, peer_key, peer_nonce, partial, message) {
        None
    } else {
        match musig2_partial_signature(key0, key1, seckey, seed, nonce0, nonce1, message) {
            Some(ours) => musig2_aggregate(key0, key1, nonce0, nonce1, partial, ours, message),
            None => None,
        }
    }
}

fn co_sign_exec(
    verify: &Musig2VerifyContext,
    sign: &Musig2SignContext,
    partial: &[u8; 32],
    message: &[u8],
) -> (r: Option<[u8; 64]>)
    requires
        verify.keys == sign.keys,
        verify.nonces == sign.nonces,
    ensures
        opt_view(r) == co_sign(
            verify.keys[0]@,
            verify.keys[1]@,
            verify.nonces[0]@,
            verify.nonces[1]@,
            verify.pubkey@,
            verify.pubnonce@,
            sign.seckey@,
            sign.nonce_seed@,
            partial@,
            message@,
        ),
{
    match verify.verify(partial, message) {
        Ok(()) => {},
        Err(_) => {
            return None;
        },
    }
    let ours = match sign.sign(message) {
        Ok(s) => s,
        Err(_) => {
            return None;
        },
    };
    match verify.aggregate_partial_signatures_for_msg([*partial, ours], message) {
        Ok(sig) => Some(sig),
        Err(_) => None,
    }
}

/// The latest nonce saved under number `n`.
pub open spec fn last_nonce(s: Seq<(u64, PubNonceBytes)>, n: u64) -> Option<PubNonceBytes>
    decreases s.len(),
{
    if s.len() == 0 {
        None
    } else if s.last().0 == n {
        Some(s.last().1)
    } else {
        last_nonce(s.drop_last(), n)
    }
}

pub proof fn lemma_last_nonce(s: Seq<(u64, PubNonceBytes)>, n: u64)
    ensures
        last_nonce(s, n) is Some <==> exists|i: int| 0 <= i < s.len() && (#[trigger] s[i]).0 == n,
        last_nonce(s, n) is Some ==> exists|i: int|
            0 <= i < s.len() && s[i] == (n, last_nonce(s, n).unwrap()) && forall|j: int| i < j < s.len() ==> (#[trigger] s[j]).0 != n,
    decreases s.len(),
{
    if s.len() > 0 {
        let p = s.drop_last();
        lemma_last_nonce(p, n);
        if s.last().0 == n {
            assert(s[s.len() - 1] == s.last());
        } else {
            if exists|i: int| 0 <= i < s.len() && (#[trigger] s[i]).0 == n {
                let i = choose|i: int| 0 <= i < s.len() && (#[trigger] s[i]).0 == n;
                assert(p[i] == s[i]);
            }
            if last_nonce(p, n) is Some {
                let i = choose|i: int|
                    0 <= i < p.len() && p[i] == (n, last_nonce(p, n).unwrap()) && forall|j: int| i < j < p.len() ==> (#[trigger] p[j]).0 != n;
                assert(s[i] == p[i]);
                assert forall|j: int| i < j < s.len() implies (#[trigger] s[j]).0 != n by {
                    if j < p.len() {
                        assert(s[j] == p[j]);
                    }
                }
            }
        }
    }
}

/// Whether a `CommitmentSigned` from the peer is answered with a
/// `RevokeAndAck` in `state`: when ready, or while shutting down with both
/// `Shutdown` messages sent. (The first commitment, signed while the
/// funding transaction is built, is answered by the funding signatures.)
pub open spec fn admits_commitment_signed(state: ChannelState) -> bool {
    match state {
        ChannelState::ChannelReady() => true,
        ChannelState::ShuttingDown(f) => f & AWAITING_PENDING_TLCS == AWAITING_PENDING_TLCS,
        _ => false,
    }
}

fn check_commitment_signed_state(state: ChannelState) -> (r: bool)
    ensures
        r == admits_commitment_signed(state),
{
    match state {
        ChannelState::ChannelReady() => true,
        ChannelState::ShuttingDown(f) => has_flags(f, AWAITING_PENDING_TLCS),
        _ => false,
    }
}

/// The unique add of `id` in `s` (meaningful when `has_add(s, id)`).
pub open spec fn the_add(s: Seq<TlcKindView>, id: TLCId) -> AddTlcView {
    let i = choose|i: int| 0 <= i < s.len() && (#[trigger] s[i]) is AddTlc && s[i].tlc_id() == id;
    s[i]->AddTlc_0
}

impl ChannelActorState {
    /// A channel we open: negotiating, with the temporary id of our TLC
    /// base key, our balance and nothing from the peer yet. `None` when the
    /// signer's keys are not valid secret keys.
    pub fn new_outbound_channel(
        public_channel_info: Option<PublicChannelInfo>,
        signer: InMemorySigner,
        local_pubkey: Pubkey,
        remote_pubkey: Pubkey,
        to_local_amount: u128,
        local_reserved_ckb_amount: u64,
        commitment_fee_rate: u64,
        commitment_delay_epoch: u64,
        funding_fee_rate: u64,
        funding_udt_type_script: Option<Vec<u8>>,
        shutdown_script: Vec<u8>,
        local_max_tlc_value_in_flight: u128,
        local_max_tlc_number_in_flight: u64,
        created_at: u64,
    ) -> (r: Option<Self>)
        requires
            to_local_amount + local_reserved_ckb_amount <= u128::MAX,
        ensures
            r is Some <==> (secp_public_key(signer.funding_key@) is Some && secp_public_key(signer.tlc_base_key@) is Some),
            r is Some ==> {
                let c = r.unwrap();
                &&& c.wf()
                &&& c.state == ChannelState::NegotiatingFunding(0)
                &&& !c.is_acceptor
                &&& c.id@ == ckb_blake2b_256(c.local_channel_public_keys.tlc_base_key@ + Seq::new(33, |_i: int| 0u8))
                &&& Some(c.local_channel_public_keys.tlc_base_key@) == secp_public_key(signer.tlc_base_key@)
                &&& Some(c.local_channel_public_keys.funding_pubkey@) == secp_public_key(signer.funding_key@)
                &&& c.to_local_amount == to_local_amount && c.to_remote_amount == 0
                &&& c.local_reserved_ckb_amount == local_reserved_ckb_amount && c.remote_reserved_ckb_amount == 0
                &&& c.commitment_numbers == CommitmentNumbers { local: 0, remote: 0 }
                &&& c.tlc_state.all_ops().len() == 0
                &&& c.local_constraints == ChannelConstraints {
                    max_tlc_value_in_flight: local_max_tlc_value_in_flight,
                    max_tlc_number_in_flight: local_max_tlc_number_in_flight,
                }
                &&& c.remote_channel_public_keys is None && c.remote_nonces@.len() == 0
                &&& c.remote_commitment_points@.len() == 0
                &&& c.signer == signer && c.created_at == created_at
            },
    {
        let keys = match signer.get_base_public_keys() {
            Some(k) => k,
            None => {
                return None;
            },
        };
        let id = derive_temp_channel_id_from_tlc_key(&keys.tlc_base_key);
        let c = ChannelActorState {
            state: ChannelState::NegotiatingFunding(0),
            public_channel_info,
            local_pubkey,
            remote_pubkey,
            id,
            funding_udt_type_script,
            is_acceptor: false,
            to_local_amount,
            to_remote_amount: 0,
            local_reserved_ckb_amount,
            remote_reserved_ckb_amount: 0,
            commitment_fee_rate,
            commitment_delay_epoch,
            funding_fee_rate,
            signer,
            local_channel_public_keys: keys,
            commitment_numbers: CommitmentNumbers::new(),
            local_constraints: ChannelConstraints::new(local_max_tlc_value_in_flight, local_max_tlc_number_in_flight),
            remote_constraints: ChannelConstraints::default(),
            tlc_state: TlcState::new(),
            remote_shutdown_script: None,
            local_shutdown_script: shutdown_script,
            last_used_nonce_in_commitment_signed: None,
            remote_nonces: Vec::new(),
            remote_commitment_points: Vec::new(),
            remote_channel_public_keys: None,
            local_shutdown_info: None,
            remote_shutdown_info: None,
            reestablishing: false,
            created_at,
        };
        proof {
            assert(c.tlc_state.all_ops() =~= Seq::<TlcKindView>::empty());
        }
        Some(c)
    }

    /// A channel the peer opens, as we accept it: negotiating after their
    /// open, with the id of both TLC base keys, both balances and reserves,
    /// the peer's keys, its first nonce (number 0) and its first two
    /// commitment points (numbers 0 and 1). `None` when the signer's keys
    /// are not valid secret keys.
    pub fn new_inbound_channel(
        public_channel_info: Option<PublicChannelInfo>,
        signer: InMemorySigner,
        local_pubkey: Pubkey,
        remote_pubkey: Pubkey,
        local_value: u128,
        local_reserved_ckb_amount: u64,
        remote_value: u128,
        remote_reserved_ckb_amount: u64,
        commitment_fee_rate: u64,
        commitment_delay_epoch: u64,
        funding_fee_rate: u64,
        funding_udt_type_script: Option<Vec<u8>>,
        local_shutdown_script: Vec<u8>,
        remote_shutdown_script: Vec<u8>,
        remote_pubkeys: ChannelBasePublicKeys,
        remote_nonce: PubNonceBytes,
        first_commitment_point: Pubkey,
        second_commitment_point: Pubkey,
        remote_constraints: ChannelConstraints,
        local_constraints: ChannelConstraints,
        created_at: u64,
    ) -> (r: Option<Self>)
        requires
            local_value + remote_value + local_reserved_ckb_amount + remote_reserved_ckb_amount <= u128::MAX,
        ensures
            r is Some <==> (secp_public_key(signer.funding_key@) is Some && secp_public_key(signer.tlc_base_key@) is Some),
            r is Some ==> {
                let c = r.unwrap();
                &&& c.wf()
                &&& c.state == ChannelState::NegotiatingFunding(THEIR_INIT_SENT)
                &&& c.is_acceptor
                &&& c.id@ == channel_id_of(c.local_channel_public_keys.tlc_base_key@, remote_pubkeys.tlc_base_key@)
                &&& Some(c.local_channel_public_keys.tlc_base_key@) == secp_public_key(signer.tlc_base_key@)
                &&& Some(c.local_channel_public_keys.funding_pubkey@) == secp_public_key(signer.funding_key@)
                &&& c.to_local_amount == local_value && c.to_remote_amount == remote_value
                &&& c.local_reserved_ckb_amount == local_reserved_ckb_amount
                &&& c.remote_reserved_ckb_amount == remote_reserved_ckb_amount
                &&& c.commitment_numbers == CommitmentNumbers { local: 0, remote: 0 }
                &&& c.tlc_state.all_ops().len() == 0
                &&& c.remote_channel_public_keys == Some(remote_pubkeys)
                &&& c.remote_nonces@ == seq![(0u64, remote_nonce)]
                &&& c.remote_commitment_points@ == seq![(0u64, first_commitment_point), (1u64, second_commitment_point)]
                &&& c.local_constraints == local_constraints && c.remote_constraints == remote_constraints
                &&& c.signer == signer && c.created_at == created_at
            },
    {
        let keys = match signer.get_base_public_keys() {
            Some(k) => k,
            None => {
                return None;
            },
        };
        let id = derive_channel_id_from_tlc_keys(&keys.tlc_base_key, &remote_pubkeys.tlc_base_key);
        let mut remote_nonces: Vec<(u64, PubNonceBytes)> = Vec::new();
        remote_nonces.push((0, remote_nonce));
        let mut remote_commitment_points: Vec<(u64, Pubkey)> = Vec::new();
        remote_commitment_points.push((0, first_commitment_point));
        remote_commitment_points.push((1, second_commitment_point));
        let c = ChannelActorState {
            state: ChannelState::NegotiatingFunding(THEIR_INIT_SENT),
            public_channel_info,
            local_pubkey,
            remote_pubkey,
            id,
            funding_udt_type_script,
            is_acceptor: true,
            to_local_amount: local_value,
            to_remote_amount: remote_value,
            local_reserved_ckb_amount,
            remote_reserved_ckb_amount,
            commitment_fee_rate,
            commitment_delay_epoch,
            funding_fee_rate,
            signer,
            local_channel_public_keys: keys,
            commitment_numbers: CommitmentNumbers::new(),
            local_constraints,
            remote_constraints,
            tlc_state: TlcState::new(),
            remote_shutdown_script: Some(remote_shutdown_script),
            local_shutdown_script,
            last_used_nonce_in_commitment_signed: None,
            remote_nonces,
            remote_commitment_points,
            remote_channel_public_keys: Some(remote_pubkeys),
            local_shutdown_info: None,
            remote_shutdown_info: None,
            reestablishing: false,
            created_at,
        };
        proof {
            assert(c.tlc_state.all_ops() =~= Seq::<TlcKindView>::empty());
            assert(c.remote_nonces@ =~= seq![(0u64, remote_nonce)]);
            assert(c.remote_commitment_points@ =~= seq![(0u64, first_commitment_point), (1u64, second_commitment_point)]);
        }
        Some(c)
    }

    /// The ledger is well formed, every TLC id lies below its direction's
    /// next id, and the balances and reserves add up without overflow.
    pub open spec fn wf(&self) -> bool {
        &&& self.tlc_state.wf()
        &&& self.tlc_state.ids_in_range()
        &&& self.to_local_amount + self.to_remote_amount + self.local_reserved_ckb_amount
            + self.remote_reserved_ckb_amount <= u128::MAX
    }

    /// The ledger part of the state.
    pub open spec fn ledger(&self) -> LedgerView {
        LedgerView {
            local: self.tlc_state.local().ops(),
            remote: self.tlc_state.remote().ops(),
            to_local: self.to_local_amount,
            to_remote: self.to_remote_amount,
            resolved: self.tlc_state.resolved(),
        }
    }

    /// The total of our live offered TLCs.
    pub open spec fn offered_total(&self) -> nat {
        live_total(self.tlc_state.all_ops(), true)
    }

    /// The total of the peer's live offered (our received) TLCs.
    pub open spec fn received_total(&self) -> nat {
        live_total(self.tlc_state.all_ops(), false)
    }

    pub fn is_public(&self) -> (r: bool)
        ensures
            r == self.public_channel_info is Some,
    {
        self.public_channel_info.is_some()
    }

    pub fn get_id(&self) -> (r: Hash256)
        ensures
            r == self.id,
    {
        self.id
    }

    pub fn get_local_balance(&self) -> (r: u128)
        ensures
            r == self.to_local_amount,
    {
        self.to_local_amount
    }

    pub fn get_remote_balance(&self) -> (r: u128)
        ensures
            r == self.to_remote_amount,
    {
        self.to_remote_amount
    }

    /// The total of our live offered TLCs, saturated at `u128::MAX`.
    pub fn get_offered_tlc_balance(&self) -> (r: u128)
        ensures
            r == if self.offered_total() > u128::MAX { u128::MAX } else { self.offered_total() as u128 },
    {
        let all = self.tlc_state.all_tlc_operations();
        let (_, total) = live_tlc_summary(all.as_slice(), true);
        match total {
            Some(t) => t,
            None => u128::MAX,
        }
    }

    /// The total of our live received TLCs, saturated at `u128::MAX`.
    pub fn get_received_tlc_balance(&self) -> (r: u128)
        ensures
            r == if self.received_total() > u128::MAX { u128::MAX } else { self.received_total() as u128 },
    {
        let all = self.tlc_state.all_tlc_operations();
        let (_, total) = live_tlc_summary(all.as_slice(), false);
        match total {
            Some(t) => t,
            None => u128::MAX,
        }
    }

    pub fn get_created_at_in_millis(&self) -> (r: u64)
        ensures
            r == self.created_at,
    {
        self.created_at
    }

    pub fn is_closed(&self) -> (r: bool)
        ensures
            r == self.state is Closed,
    {
        self.state.is_closed()
    }

    pub fn update_state(&mut self, new_state: ChannelState)
        ensures
            *final(self) == (ChannelActorState { state: new_state, ..*old(self) }),
    {
        self.state = new_state;
    }

    pub fn get_current_commitment_numbers(&self) -> (r: CommitmentNumbers)
        ensures
            r == self.commitment_numbers,
    {
        self.commitment_numbers
    }

    pub fn get_local_commitment_number(&self) -> (r: u64)
        ensures
            r == self.commitment_numbers.local,
    {
        self.commitment_numbers.get_local()
    }

    pub fn get_remote_commitment_number(&self) -> (r: u64)
        ensures
            r == self.commitment_numbers.remote,
    {
        self.commitment_numbers.get_remote()
    }

    pub fn increment_local_commitment_number(&mut self)
        requires
            old(self).commitment_numbers.local < u64::MAX,
        ensures
            *final(self) == (ChannelActorState {
                commitment_numbers: CommitmentNumbers {
                    local: (old(self).commitment_numbers.local + 1) as u64,
                    ..old(self).commitment_numbers
                },
                ..*old(self)
            }),
    {
        self.commitment_numbers.increment_local();
    }

    pub fn increment_remote_commitment_number(&mut self)
        requires
            old(self).commitment_numbers.remote < u64::MAX,
        ensures
            *final(self) == (ChannelActorState {
                commitment_numbers: CommitmentNumbers {
                    remote: (old(self).commitment_numbers.remote + 1) as u64,
                    ..old(self).commitment_numbers
                },
                ..*old(self)
            }),
    {
        self.commitment_numbers.increment_remote();
    }

    /// The number of the commitment currently signed for the remote
    /// (`for_remote`) or for us.
    pub fn get_current_commitment_number(&self, for_remote: bool) -> (r: u64)
        ensures
            r == if for_remote { self.commitment_numbers.local } else { self.commitment_numbers.remote },
    {
        if for_remote {
            self.get_local_commitment_number()
        } else {
            self.get_remote_commitment_number()
        }
    }

    pub fn get_next_commitment_number(&self, for_remote: bool) -> (r: u64)
        requires
            (if for_remote { self.commitment_numbers.local } else { self.commitment_numbers.remote }) < u64::MAX,
        ensures
            r == (if for_remote { self.commitment_numbers.local } else { self.commitment_numbers.remote }) + 1,
    {
        self.get_current_commitment_number(for_remote) + 1
    }

    pub fn get_next_offering_tlc_id(&self) -> (r: u64)
        ensures
            r == self.tlc_state.local().next_id(),
    {
        self.tlc_state.get_next_offering()
    }

    pub fn get_next_received_tlc_id(&self) -> (r: u64)
        ensures
            r == self.tlc_state.remote().next_id(),
    {
        self.tlc_state.get_next_received()
    }

    pub fn increment_next_offered_tlc_id(&mut self)
        requires
            old(self).tlc_state.local().next_id() < u64::MAX,
        ensures
            final(self).tlc_state.local().next_id() == old(self).tlc_state.local().next_id() + 1,
            final(self).tlc_state.local().ops() == old(self).tlc_state.local().ops(),
            final(self).tlc_state.local().committed_len() == old(self).tlc_state.local().committed_len(),
            final(self).tlc_state.remote() == old(self).tlc_state.remote(),
            final(self).to_local_amount == old(self).to_local_amount,
            final(self).to_remote_amount == old(self).to_remote_amount,
            final(self).commitment_numbers == old(self).commitment_numbers,
    {
        self.tlc_state.increment_offering();
    }

    pub fn increment_next_received_tlc_id(&mut self)
        requires
            old(self).tlc_state.remote().next_id() < u64::MAX,
        ensures
            final(self).tlc_state.remote().next_id() == old(self).tlc_state.remote().next_id() + 1,
            final(self).tlc_state.remote().ops() == old(self).tlc_state.remote().ops(),
            final(self).tlc_state.remote().committed_len() == old(self).tlc_state.remote().committed_len(),
            final(self).tlc_state.local() == old(self).tlc_state.local(),
            final(self).to_local_amount == old(self).to_local_amount,
            final(self).to_remote_amount == old(self).to_remote_amount,
            final(self).commitment_numbers == old(self).commitment_numbers,
    {
        self.tlc_state.increment_received();
    }

    pub fn get_offered_tlc(&self, tlc_id: u64) -> (r: Option<&AddTlcInfo>)
        ensures
            r is Some == has_add(self.tlc_state.local().ops(), TLCId::Offered(tlc_id)),
            r is Some ==> r.unwrap().tlc_id == TLCId::Offered(tlc_id) && exists|i: int|
                0 <= i < self.tlc_state.local().ops().len() && self.tlc_state.local().ops()[i]
                    == TlcKindView::AddTlc(r.unwrap()@),
    {
        self.tlc_state.get(&TLCId::Offered(tlc_id))
    }

    pub fn get_received_tlc(&self, tlc_id: u64) -> (r: Option<&AddTlcInfo>)
        ensures
            r is Some == has_add(self.tlc_state.remote().ops(), TLCId::Received(tlc_id)),
            r is Some ==> r.unwrap().tlc_id == TLCId::Received(tlc_id) && exists|i: int|
                0 <= i < self.tlc_state.remote().ops().len() && self.tlc_state.remote().ops()[i]
                    == TlcKindView::AddTlc(r.unwrap()@),
    {
        self.tlc_state.get(&TLCId::Received(tlc_id))
    }

    /// Check that a new TLC may join the ledger: no live TLC may share its
    /// payment hash, and the live TLCs of its direction plus it must not
    /// exceed the balance of the side that offers it.
    pub fn check_insert_tlc(&self, tlc: &AddTlcInfo) -> (r: Result<(), ProcessingChannelError>)
        requires
            self.tlc_state.wf(),
        ensures
            has_live_hash(self.tlc_state.all_ops(), tlc.payment_hash) ==> r is Err
                && r->Err_0 is RepeatedProcessing,
            !has_live_hash(self.tlc_state.all_ops(), tlc.payment_hash) ==> {
                let (total, balance) = if tlc.tlc_id is Offered {
                    (self.offered_total(), self.to_local_amount)
                } else {
                    (self.received_total(), self.to_remote_amount)
                };
                &&& (total + tlc.amount > balance) ==> r is Err && r->Err_0 is TlcAmountExceedLimit
                &&& (total + tlc.amount <= balance) ==> r is Ok
            },
    {
        let all = self.tlc_state.all_tlc_operations();
        if find_live_payment_hash(all.as_slice(), &tlc.payment_hash) {
            return Err(ProcessingChannelError::RepeatedProcessing("duplicate payment hash".to_string()));
        }
        let offered = tlc.is_offered();
        let (_, total) = live_tlc_summary(all.as_slice(), offered);
        let balance = if offered {
            self.to_local_amount
        } else {
            self.to_remote_amount
        };
        match total {
            Some(t) => match t.checked_add(tlc.amount) {
                Some(sum) => {
                    if sum > balance {
                        Err(ProcessingChannelError::TlcAmountExceedLimit)
                    } else {
                        Ok(())
                    }
                },
                None => Err(ProcessingChannelError::TlcAmountExceedLimit),
            },
            None => Err(ProcessingChannelError::TlcAmountExceedLimit),
        }
    }

    /// Check a new TLC of `add_amount` against the limits of its direction
    /// (`is_sent`: ours, under our constraints; else the peer's, under theirs).
    pub fn check_tlc_limits(&self, add_amount: u128, is_sent: bool) -> (r: Result<(), ProcessingChannelError>)
        requires
            self.tlc_state.wf(),
        ensures
            ({
                let constraints = if is_sent { self.local_constraints } else { self.remote_constraints };
                let count = live_count(self.tlc_state.all_ops(), is_sent);
                let total = live_total(self.tlc_state.all_ops(), is_sent);
                &&& add_amount == 0 ==> r is Err && r->Err_0 is TlcAmountIsTooLow
                &&& (add_amount > 0 && count + 1 > constraints.max_tlc_number_in_flight) ==> r is Err
                    && r->Err_0 is TlcNumberExceedLimit
                &&& (add_amount > 0 && count + 1 <= constraints.max_tlc_number_in_flight && total
                    + add_amount > constraints.max_tlc_value_in_flight) ==> r is Err
                    && r->Err_0 is TlcValueInflightExceedLimit
                &&& r is Ok <==> (add_amount > 0 && count + 1 <= constraints.max_tlc_number_in_flight
                    && total + add_amount <= constraints.max_tlc_value_in_flight)
            }),
    {
        if add_amount == 0 {
            return Err(ProcessingChannelError::TlcAmountIsTooLow);
        }
        let constraints = if is_sent {
            self.local_constraints
        } else {
            self.remote_constraints
        };
        let all = self.tlc_state.all_tlc_operations();
        let (count, total) = live_tlc_summary(all.as_slice(), is_sent);
        if count as u128 + 1 > constraints.max_tlc_number_in_flight as u128 {
            return Err(ProcessingChannelError::TlcNumberExceedLimit);
        }
        match total {
            Some(t) => match t.checked_add(add_amount) {
                Some(sum) => {
                    if sum > constraints.max_tlc_value_in_flight {
                        Err(ProcessingChannelError::TlcValueInflightExceedLimit)
                    } else {
                        Ok(())
                    }
                },
                None => Err(ProcessingChannelError::TlcValueInflightExceedLimit),
            },
            None => Err(ProcessingChannelError::TlcValueInflightExceedLimit),
        }
    }

    /// Check that a TLC may be added (`add_tlc_amount` given) or removed
    /// now: a command must not arrive while an ack is awaited, adding needs
    /// a ready channel and removing a ready or shutting-down one, and an
    /// addition must stay within the limits.
    pub fn check_for_tlc_update(
        &self,
        add_tlc_amount: Option<u128>,
        is_tlc_command_message: bool,
        is_sent: bool,
    ) -> (r: Result<(), ProcessingChannelError>)
        requires
            self.tlc_state.wf(),
        ensures
            is_tlc_command_message && self.tlc_state.spec_waiting_ack() ==> r is Err && r->Err_0 is WaitingTlcAck,
            !(is_tlc_command_message && self.tlc_state.spec_waiting_ack()) ==> {
                let state_ok = self.state is ChannelReady || (self.state is ShuttingDown
                    && add_tlc_amount is None);
                &&& !state_ok ==> r is Err && r->Err_0 is InvalidState
                &&& (state_ok && add_tlc_amount == Some(0u128)) ==> r is Err && r->Err_0 is TlcAmountIsTooLow
                &&& (state_ok && add_tlc_amount is None) ==> r is Ok
                &&& (state_ok && add_tlc_amount is Some) ==> (r is Ok <==> (add_tlc_amount.unwrap()
                    > 0 && live_count(self.tlc_state.all_ops(), is_sent) + 1 <= (if is_sent {
                    self.local_constraints
                } else {
                    self.remote_constraints
                }).max_tlc_number_in_flight && live_total(self.tlc_state.all_ops(), is_sent)
                    + add_tlc_amount.unwrap() <= (if is_sent {
                    self.local_constraints
                } else {
                    self.remote_constraints
                }).max_tlc_value_in_flight))
            },
    {
        if is_tlc_command_message && self.tlc_state.waiting_ack() {
            return Err(ProcessingChannelError::WaitingTlcAck);
        }
        match self.state {
            ChannelState::ChannelReady() => {},
            ChannelState::ShuttingDown(_) => {
                if add_tlc_amount.is_some() {
                    return Err(ProcessingChannelError::InvalidState("adding a tlc while shutting down".to_string()));
                }
            },
            _ => {
                return Err(ProcessingChannelError::InvalidState("the channel is not ready".to_string()));
            },
        }
        match add_tlc_amount {
            Some(amount) => self.check_tlc_limits(amount, is_sent),
            None => Ok(()),
        }
    }

    /// The unique add of `id` in the list of its direction.
    pub open spec fn current_tlc(&self, id: TLCId) -> AddTlcView {
        the_add(self.tlc_state.side(id).ops(), id)
    }

    /// Resolve TLC `tlc_id` for `reason` at the current commitment numbers.
    ///
    /// A TLC that is absent is an `InvalidParameter`; one already removed
    /// at these numbers for the same reason is `RepeatedProcessing`; one
    /// removed otherwise is an `InvalidParameter`. A fulfill whose preimage
    /// does not hash to the payment hash is `FinalIncorrectPreimage`, and
    /// one whose amount the paying side no longer holds (or the other side
    /// cannot take) is `TlcAmountExceedLimit`. On success a fulfill moves
    /// the amount from the side that offered the TLC to the other, a fail
    /// moves nothing, and the TLC is marked removed and compacted out of
    /// its direction's list. On error nothing changes.
    pub fn remove_tlc_with_reason(&mut self, tlc_id: TLCId, reason: &RemoveTlcReason) -> (r: Result<
        AddTlcInfo,
        ProcessingChannelError,
    >)
        requires
            old(self).wf(),
        ensures
            final(self).wf(),
            final(self).to_local_amount + final(self).to_remote_amount == old(self).to_local_amount
                + old(self).to_remote_amount,
            final(self).commitment_numbers == old(self).commitment_numbers,
            final(self).ledger() == remove_step(old(self).ledger(), tlc_id, reason@, old(self).commitment_numbers),
            final(self).tlc_state.spec_waiting_ack() == old(self).tlc_state.spec_waiting_ack(),
            final(self).remote_commitment_points == old(self).remote_commitment_points,
            final(self).tlc_state.retry_queue() == old(self).tlc_state.retry_queue(),
            final(self).state == old(self).state,
            final(self).last_used_nonce_in_commitment_signed == old(self).last_used_nonce_in_commitment_signed,
            r is Err ==> *final(self) == *old(self),
            !has_add(old(self).tlc_state.side(tlc_id).ops(), tlc_id) ==> r is Err && if last_resolution(
                old(self).tlc_state.resolved(),
                tlc_id,
            ) == Some((old(self).commitment_numbers, reason@)) {
                r->Err_0 is RepeatedProcessing
            } else {
                r->Err_0 is InvalidParameter
            },
            has_add(old(self).tlc_state.side(tlc_id).ops(), tlc_id) ==> {
                let cur = old(self).current_tlc(tlc_id);
                let at = old(self).commitment_numbers;
                let fulfill = reason.spec_is_fulfill();
                let shift_ok = if tlc_id is Offered {
                    cur.amount <= old(self).to_local_amount
                } else {
                    cur.amount <= old(self).to_remote_amount
                };
                &&& cur.removed_at == Some((at, reason@)) ==> r is Err && r->Err_0 is RepeatedProcessing
                &&& (cur.removed_at is Some && cur.removed_at != Some((at, reason@))) ==> r is Err
                    && r->Err_0 is InvalidParameter
                &&& (cur.removed_at is None && fulfill && spec_hash(
                    cur.hash_algorithm,
                    reason->RemoveTlcFulfill_0.payment_preimage@,
                ) != cur.payment_hash@) ==> r is Err && r->Err_0 is FinalIncorrectPreimage
                &&& (cur.removed_at is None && fulfill && spec_hash(
                    cur.hash_algorithm,
                    reason->RemoveTlcFulfill_0.payment_preimage@,
                ) == cur.payment_hash@ && !shift_ok) ==> r is Err && r->Err_0 is TlcAmountExceedLimit
                &&& r is Ok <==> (cur.removed_at is None && (fulfill ==> (spec_hash(
                    cur.hash_algorithm,
                    reason->RemoveTlcFulfill_0.payment_preimage@,
                ) == cur.payment_hash@ && shift_ok)))
                &&& r is Ok ==> {
                    &&& r->Ok_0@ == cur
                    &&& fulfill && tlc_id is Offered ==> final(self).to_local_amount
                        == old(self).to_local_amount - cur.amount
                    &&& fulfill && tlc_id is Received ==> final(self).to_local_amount
                        == old(self).to_local_amount + cur.amount
                    &&& !fulfill ==> final(self).to_local_amount == old(self).to_local_amount
                    &&& final(self).tlc_state.side(tlc_id).ops() == drop_removed_adds(
                        mark_removed_in(
                            drop_removes_of(old(self).tlc_state.side(tlc_id).ops(), tlc_id),
                            tlc_id,
                            at,
                            reason@,
                        ),
                    )
                    &&& final(self).tlc_state.side(tlc_id.spec_flip()).ops() == mark_removed_in(
                        drop_removes_of(old(self).tlc_state.side(tlc_id.spec_flip()).ops(), tlc_id),
                        tlc_id,
                        at,
                        reason@,
                    )
                    &&& !has_add(final(self).tlc_state.side(tlc_id).ops(), tlc_id)
                    &&& final(self).tlc_state.resolved() == old(self).tlc_state.resolved().push((tlc_id, at, reason@))
                    &&& last_resolution(final(self).tlc_state.resolved(), tlc_id) == Some((at, reason@))
                }
            },
    {
        let removed_at = self.get_current_commitment_numbers();
        let current = match self.tlc_state.get(&tlc_id) {
            Some(tlc) => tlc.clone(),
            None => {
                match self.tlc_state.find_resolution(tlc_id) {
                    Some((at, earlier)) => {
                        if at == removed_at && earlier.same_as(reason) {
                            return Err(ProcessingChannelError::RepeatedProcessing("tlc is already removed".to_string()));
                        }
                    },
                    None => {},
                }
                return Err(ProcessingChannelError::InvalidParameter("no such tlc".to_string()));
            },
        };
        proof {
            let s = self.tlc_state.side(tlc_id).ops();
            let i0 = choose|i: int| 0 <= i < s.len() && s[i] == TlcKindView::AddTlc(current@);
            let j = choose|j: int| 0 <= j < s.len() && (#[trigger] s[j]) is AddTlc && s[j].tlc_id() == tlc_id;
            assert(unique_ops(s));
            if i0 != j {
                assert(!s[i0].same_operation(s[j]));
            }
            assert(current@ == self.current_tlc(tlc_id));
        }
        match &current.removed_at {
            Some((current_removed_at, current_reason)) => {
                if *current_removed_at == removed_at && current_reason.same_as(reason) {
                    return Err(ProcessingChannelError::RepeatedProcessing("tlc is already removed".to_string()));
                }
                return Err(ProcessingChannelError::InvalidParameter("tlc was removed before".to_string()));
            },
            None => {},
        }
        match reason {
            RemoveTlcReason::RemoveTlcFulfill(fulfill) => {
                let filled = current.hash_algorithm.hash(fulfill.payment_preimage.as_slice());
                if !hash_equal(&filled, &current.payment_hash) {
                    return Err(ProcessingChannelError::FinalIncorrectPreimage);
                }
                if current.is_offered() {
                    if current.amount > self.to_local_amount {
                        return Err(ProcessingChannelError::TlcAmountExceedLimit);
                    }
                    self.to_local_amount = self.to_local_amount - current.amount;
                    self.to_remote_amount = self.to_remote_amount + current.amount;
                } else {
                    if current.amount > self.to_remote_amount {
                        return Err(ProcessingChannelError::TlcAmountExceedLimit);
                    }
                    self.to_local_amount = self.to_local_amount + current.amount;
                    self.to_remote_amount = self.to_remote_amount - current.amount;
                }
            },
            RemoveTlcReason::RemoveTlcFail(_) => {},
        }
        let ghost on = self.tlc_state.local().next_id();
        let ghost rn = self.tlc_state.remote().next_id();
        let ghost side_ops = self.tlc_state.side(tlc_id).ops();
        let ghost flip_ops = self.tlc_state.side(tlc_id.spec_flip()).ops();
        self.tlc_state.apply_remove_tlc(tlc_id, removed_at, reason.clone());
        proof {
            lemma_below_drop_removes(side_ops, tlc_id, on, rn);
            lemma_below_mark(drop_removes_of(side_ops, tlc_id), tlc_id, removed_at, reason@, on, rn);
            lemma_below_drop_removed_adds(
                mark_removed_in(drop_removes_of(side_ops, tlc_id), tlc_id, removed_at, reason@),
                on,
                rn,
            );
            lemma_below_drop_removes(flip_ops, tlc_id, on, rn);
            lemma_below_mark(drop_removes_of(flip_ops, tlc_id), tlc_id, removed_at, reason@, on, rn);
            lemma_removed_add_gone(
                drop_removes_of(old(self).tlc_state.side(tlc_id).ops(), tlc_id),
                tlc_id,
                removed_at,
                reason@,
            );
        }
        Ok(current)
    }

    /// Check, without changing anything, that TLC `tlc_id` may be resolved for `reason`.
    pub fn check_remove_tlc_with_reason(&self, tlc_id: TLCId, reason: &RemoveTlcReason) -> (r: Result<
        (),
        ProcessingChannelError,
    >)
        requires
            self.tlc_state.wf(),
        ensures
            !has_add(self.tlc_state.side(tlc_id).ops(), tlc_id) ==> r is Err && if last_resolution(
                self.tlc_state.resolved(),
                tlc_id,
            ) is Some {
                r->Err_0 is RepeatedProcessing
            } else {
                r->Err_0 is InvalidParameter
            },
            has_add(self.tlc_state.side(tlc_id).ops(), tlc_id) ==> {
                let cur = self.current_tlc(tlc_id);
                &&& cur.removed_at is Some ==> r is Err && r->Err_0 is RepeatedProcessing
                &&& (cur.removed_at is None && reason.spec_is_fulfill() && spec_hash(
                    cur.hash_algorithm,
                    reason->RemoveTlcFulfill_0.payment_preimage@,
                ) != cur.payment_hash@) ==> r is Err && r->Err_0 is FinalIncorrectPreimage
                &&& r is Ok <==> (cur.removed_at is None && (reason.spec_is_fulfill() ==> spec_hash(
                    cur.hash_algorithm,
                    reason->RemoveTlcFulfill_0.payment_preimage@,
                ) == cur.payment_hash@))
            },
    {
        match self.tlc_state.get(&tlc_id) {
            Some(tlc) => {
                proof {
                    let s = self.tlc_state.side(tlc_id).ops();
                    let i0 = choose|i: int| 0 <= i < s.len() && s[i] == TlcKindView::AddTlc(tlc@);
                    let j = choose|j: int|
                        0 <= j < s.len() && (#[trigger] s[j]) is AddTlc && s[j].tlc_id() == tlc_id;
                    if i0 != j {
                        assert(!s[i0].same_operation(s[j]));
                    }
                }
                if tlc.removed_at.is_some() {
                    return Err(ProcessingChannelError::RepeatedProcessing("tlc is already removed".to_string()));
                }
                match reason {
                    RemoveTlcReason::RemoveTlcFulfill(fulfill) => {
                        let filled = tlc.hash_algorithm.hash(fulfill.payment_preimage.as_slice());
                        if !hash_equal(&filled, &tlc.payment_hash) {
                            return Err(ProcessingChannelError::FinalIncorrectPreimage);
                        }
                    },
                    RemoveTlcReason::RemoveTlcFail(_) => {},
                }
                Ok(())
            },
            None => match self.tlc_state.find_resolution(tlc_id) {
                Some(_) => Err(ProcessingChannelError::RepeatedProcessing("tlc is already removed".to_string())),
                None => Err(ProcessingChannelError::InvalidParameter("no such tlc".to_string())),
            },
        }
    }

    /// The TLC a command offers: the next offered id, created at the current numbers.
    pub fn create_outbounding_tlc(&self, command: AddTlcCommand) -> (r: AddTlcInfo)
        ensures
            r.channel_id == self.id,
            r.tlc_id == TLCId::Offered(self.tlc_state.local().next_id()),
            r.amount == command.amount,
            r.payment_hash == command.payment_hash,
            r.expiry == command.expiry,
            r.hash_algorithm == command.hash_algorithm,
            r.onion_packet == command.onion_packet,
            r.shared_secret == command.shared_secret,
            r.created_at == self.commitment_numbers,
            r.removed_at is None,
            r.payment_preimage is None,
            r.previous_tlc == match command.previous_tlc {
                Some((channel_id, id)) => Some((channel_id, TLCId::Received(id))),
                None => None,
            },
    {
        let id = self.get_next_offering_tlc_id();
        let previous_tlc = match command.previous_tlc {
            Some((channel_id, tlc_id)) => Some((channel_id, TLCId::Received(tlc_id))),
            None => None,
        };
        AddTlcInfo {
            channel_id: self.get_id(),
            tlc_id: TLCId::Offered(id),
            amount: command.amount,
            payment_hash: command.payment_hash,
            expiry: command.expiry,
            hash_algorithm: command.hash_algorithm,
            created_at: self.get_current_commitment_numbers(),
            payment_preimage: None,
            removed_at: None,
            onion_packet: command.onion_packet,
            shared_secret: command.shared_secret,
            previous_tlc,
        }
    }

    /// The TLC a peer's `AddTlc` message proposes, created at the current numbers.
    pub fn create_inbounding_tlc(&self, message: AddTlc) -> (r: Result<AddTlcInfo, ProcessingChannelError>)
        ensures
            r is Ok,
            r->Ok_0.channel_id == self.id,
            r->Ok_0.tlc_id == TLCId::Received(message.tlc_id),
            r->Ok_0.amount == message.amount,
            r->Ok_0.payment_hash == message.payment_hash,
            r->Ok_0.expiry == message.expiry,
            r->Ok_0.hash_algorithm == message.hash_algorithm,
            r->Ok_0.onion_packet == message.onion_packet,
            r->Ok_0.shared_secret@ == Seq::new(32, |_i: int| 0u8),
            r->Ok_0.created_at == self.commitment_numbers,
            r->Ok_0.removed_at is None,
            r->Ok_0.payment_preimage is None,
            r->Ok_0.previous_tlc is None,
    {
        let zero = [0u8; 32];
        proof {
            assert(zero@ =~= Seq::new(32, |_i: int| 0u8));
        }
        Ok(
            AddTlcInfo {
                tlc_id: TLCId::Received(message.tlc_id),
                channel_id: self.get_id(),
                amount: message.amount,
                payment_hash: message.payment_hash,
                expiry: message.expiry,
                hash_algorithm: message.hash_algorithm,
                onion_packet: message.onion_packet,
                shared_secret: zero,
                created_at: self.get_current_commitment_numbers(),
                payment_preimage: None,
                removed_at: None,
                previous_tlc: None,
            },
        )
    }

    /// The peer's nonce for the current remote commitment number: the
    /// latest one saved under that number.
    pub fn get_remote_nonce(&self) -> (r: Option<PubNonceBytes>)
        ensures
            r == last_nonce(self.remote_nonces@, self.commitment_numbers.remote),
            r is Some <==> exists|i: int|
                0 <= i < self.remote_nonces@.len() && (#[trigger] self.remote_nonces@[i]).0
                    == self.commitment_numbers.remote,
            r is Some ==> exists|i: int|
                0 <= i < self.remote_nonces@.len() && self.remote_nonces@[i] == (
                    self.commitment_numbers.remote,
                    r.unwrap(),
                ) && forall|j: int|
                    i < j < self.remote_nonces@.len() ==> (#[trigger] self.remote_nonces@[j]).0
                        != self.commitment_numbers.remote,
    {
        proof {
            lemma_last_nonce(self.remote_nonces@, self.commitment_numbers.remote);
        }
        let number = self.get_remote_commitment_number();
        let mut i: usize = self.remote_nonces.len();
        proof {
            assert(self.remote_nonces@.subrange(0, i as int) =~= self.remote_nonces@);
        }
        while i > 0
            invariant
                i <= self.remote_nonces@.len(),
                number == self.commitment_numbers.remote,
                last_nonce(self.remote_nonces@, number) == last_nonce(self.remote_nonces@.subrange(0, i as int), number),
                forall|j: int|
                    i <= j < self.remote_nonces@.len() ==> (#[trigger] self.remote_nonces@[j]).0 != number,
            decreases i,
        {
            proof {
                let t = self.remote_nonces@.subrange(0, i as int);
                assert(t.last() == self.remote_nonces@[i - 1]);
                assert(t.drop_last() =~= self.remote_nonces@.subrange(0, i - 1));
            }
            i = i - 1;
            if self.remote_nonces[i].0 == number {
                return Some(self.remote_nonces[i].1);
            }
        }
        None
    }

    /// Save the peer's next nonce: under number 0 when none is saved yet,
    /// else under the remote commitment number plus one; only the two
    /// latest are kept.
    pub fn save_remote_nonce(&mut self, nonce: PubNonceBytes)
        requires
            old(self).commitment_numbers.remote < u64::MAX,
        ensures
            ({
                let number: u64 = if old(self).remote_nonces@.len() == 0 {
                    0
                } else {
                    (old(self).commitment_numbers.remote + 1) as u64
                };
                let pushed = old(self).remote_nonces@.push((number, nonce));
                &&& pushed.len() > 2 ==> final(self).remote_nonces@ == pushed.subrange(1, pushed.len() as int)
                &&& pushed.len() <= 2 ==> final(self).remote_nonces@ == pushed
            }),
            final(self).remote_nonces@.len() <= 2 || final(self).remote_nonces@.len()
                == old(self).remote_nonces@.len(),
            *final(self) == (ChannelActorState { remote_nonces: final(self).remote_nonces, ..*old(self) }),
    {
        let number: u64 = if self.remote_nonces.len() == 0 {
            0
        } else {
            self.get_remote_commitment_number() + 1
        };
        self.remote_nonces.push((number, nonce));
        if self.remote_nonces.len() > 2 {
            let ghost before = self.remote_nonces@;
            self.remote_nonces.remove(0);
            proof {
                assert(self.remote_nonces@ =~= before.subrange(1, before.len() as int));
            }
        }
    }

    /// Remember the peer's current nonce for the `RevokeAndAck` that answers
    /// our `CommitmentSigned`.
    pub fn save_remote_nonce_for_raa(&mut self)
        ensures
            *final(self) == (ChannelActorState {
                last_used_nonce_in_commitment_signed: final(self).last_used_nonce_in_commitment_signed,
                ..*old(self)
            }),
            final(self).last_used_nonce_in_commitment_signed is Some <==> exists|i: int|
                0 <= i < old(self).remote_nonces@.len() && (#[trigger] old(self).remote_nonces@[i]).0
                    == old(self).commitment_numbers.remote,
    {
        let nonce = self.get_remote_nonce();
        self.last_used_nonce_in_commitment_signed = nonce;
    }

    /// Take the nonce remembered for the `RevokeAndAck`.
    pub fn take_remote_nonce_for_raa(&mut self) -> (r: Option<PubNonceBytes>)
        ensures
            r == old(self).last_used_nonce_in_commitment_signed,
            *final(self) == (ChannelActorState {
                last_used_nonce_in_commitment_signed: None,
                ..*old(self)
            }),
    {
        let r = self.last_used_nonce_in_commitment_signed;
        self.last_used_nonce_in_commitment_signed = None;
        r
    }

    /// The peer's per-commitment point for `commitment_number`, if kept.
    pub fn get_remote_commitment_point(&self, commitment_number: u64) -> (r: Option<Pubkey>)
        ensures
            r is Some <==> exists|i: int|
                0 <= i < self.remote_commitment_points@.len() && (
                #[trigger] self.remote_commitment_points@[i]).0 == commitment_number,
            r is Some ==> exists|i: int|
                0 <= i < self.remote_commitment_points@.len() && self.remote_commitment_points@[i] == (
                    commitment_number,
                    r.unwrap(),
                ),
    {
        let mut i: usize = 0;
        while i < self.remote_commitment_points.len()
            invariant
                i <= self.remote_commitment_points@.len(),
                forall|j: int|
                    0 <= j < i ==> (#[trigger] self.remote_commitment_points@[j]).0 != commitment_number,
            decreases self.remote_commitment_points@.len() - i,
        {
            if self.remote_commitment_points[i].0 == commitment_number {
                return Some(self.remote_commitment_points[i].1);
            }
            i = i + 1;
        }
        None
    }

    /// Add the peer's point for our current local commitment number; once
    /// more than `max_tlc_number_in_flight + 1` points are kept, drop
    /// those numbered below the least `created_at.remote` of a live TLC.
    pub fn append_remote_commitment_point(&mut self, commitment_point: Pubkey)
        requires
            old(self).tlc_state.wf(),
        ensures
            ({
                let pushed = old(self).remote_commitment_points@.push(
                    (old(self).commitment_numbers.local, commitment_point),
                );
                let least = match min_live_created_remote(old(self).tlc_state.all_ops()) {
                    Some(m) => m,
                    None => 0,
                };
                &&& pushed.len() > old(self).local_constraints.max_tlc_number_in_flight + 1
                    ==> final(self).remote_commitment_points@ == points_from(pushed, least)
                &&& pushed.len() <= old(self).local_constraints.max_tlc_number_in_flight + 1
                    ==> final(self).remote_commitment_points@ == pushed
            }),
            *final(self) == (ChannelActorState {
                remote_commitment_points: final(self).remote_commitment_points,
                ..*old(self)
            }),
    {
        let ghost old_points = self.remote_commitment_points@;
        self.remote_commitment_points.push((self.get_local_commitment_number(), commitment_point));
        let len = self.remote_commitment_points.len();
        if len as u128 > self.local_constraints.max_tlc_number_in_flight as u128 + 1 {
            let all = self.tlc_state.all_tlc_operations();
            let least = match min_live_created_remote_of(all.as_slice()) {
                Some(m) => m,
                None => 0,
            };
            let ghost pushed = self.remote_commitment_points@;
            let mut kept: Vec<(u64, Pubkey)> = Vec::new();
            let mut i: usize = 0;
            proof {
                assert(pushed.subrange(0, 0) =~= Seq::<(u64, Pubkey)>::empty());
            }
            while i < self.remote_commitment_points.len()
                invariant
                    i <= pushed.len(),
                    pushed == self.remote_commitment_points@,
                    kept@ == points_from(pushed.subrange(0, i as int), least),
                decreases pushed.len() - i,
            {
                proof {
                    assert(pushed.subrange(0, i + 1).drop_last() =~= pushed.subrange(0, i as int));
                }
                let entry = self.remote_commitment_points[i];
                if entry.0 >= least {
                    kept.push(entry);
                }
                i = i + 1;
            }
            proof {
                assert(pushed.subrange(0, pushed.len() as int) =~= pushed);
            }
            self.remote_commitment_points = kept;
        }
    }

    pub fn get_our_tlc_fee_proportional_millionths(&self) -> (r: Option<u128>)
        ensures
            r == match self.public_channel_info {
                Some(info) => Some(info.tlc_fee_proportional_millionths),
                None => None,
            },
    {
        match self.public_channel_info {
            Some(info) => Some(info.tlc_fee_proportional_millionths),
            None => None,
        }
    }

    pub fn get_our_tlc_min_value(&self) -> (r: Option<u128>)
        ensures
            r == match self.public_channel_info {
                Some(info) => Some(info.tlc_min_value),
                None => None,
            },
    {
        match self.public_channel_info {
            Some(info) => Some(info.tlc_min_value),
            None => None,
        }
    }

    pub fn get_our_enabled(&self) -> (r: Option<bool>)
        ensures
            r == match self.public_channel_info {
                Some(info) => Some(info.enabled),
                None => None,
            },
    {
        match self.public_channel_info {
            Some(info) => Some(info.enabled),
            None => None,
        }
    }

    pub fn get_our_tlc_expiry_delta(&self) -> (r: Option<u64>)
        ensures
            r == match self.public_channel_info {
                Some(info) => Some(info.tlc_expiry_delta),
                None => None,
            },
    {
        match self.public_channel_info {
            Some(info) => Some(info.tlc_expiry_delta),
            None => None,
        }
    }

    /// Set the forwarding fee rate; returns whether it changed.
    pub fn update_our_tlc_fee_proportional_millionths(&mut self, fee: u128) -> (r: bool)
        requires
            old(self).public_channel_info is Some,
        ensures
            r == (old(self).public_channel_info.unwrap().tlc_fee_proportional_millionths != fee),
            *final(self) == (ChannelActorState {
                public_channel_info: Some(
                    PublicChannelInfo {
                        tlc_fee_proportional_millionths: fee,
                        ..old(self).public_channel_info.unwrap()
                    },
                ),
                ..*old(self)
            }),
    {
        let mut info = self.public_channel_info.unwrap();
        let changed = info.tlc_fee_proportional_millionths != fee;
        info.tlc_fee_proportional_millionths = fee;
        self.public_channel_info = Some(info);
        changed
    }

    /// Set the least forwarded amount; returns whether it changed.
    pub fn update_our_tlc_min_value(&mut self, value: u128) -> (r: bool)
        requires
            old(self).public_channel_info is Some,
        ensures
            r == (old(self).public_channel_info.unwrap().tlc_min_value != value),
            *final(self) == (ChannelActorState {
                public_channel_info: Some(
                    PublicChannelInfo { tlc_min_value: value, ..old(self).public_channel_info.unwrap() },
                ),
                ..*old(self)
            }),
    {
        let mut info = self.public_channel_info.unwrap();
        let changed = info.tlc_min_value != value;
        info.tlc_min_value = value;
        self.public_channel_info = Some(info);
        changed
    }

    /// Enable or disable forwarding; returns whether it changed.
    pub fn update_our_enabled(&mut self, enabled: bool) -> (r: bool)
        requires
            old(self).public_channel_info is Some,
        ensures
            r == (old(self).public_channel_info.unwrap().enabled != enabled),
            *final(self) == (ChannelActorState {
                public_channel_info: Some(
                    PublicChannelInfo { enabled, ..old(self).public_channel_info.unwrap() },
                ),
                ..*old(self)
            }),
    {
        let mut info = self.public_channel_info.unwrap();
        let changed = info.enabled != enabled;
        info.enabled = enabled;
        self.public_channel_info = Some(info);
        changed
    }

    /// Set the expiry delta; returns whether it changed.
    pub fn update_our_tlc_expiry_delta(&mut self, value: u64) -> (r: bool)
        requires
            old(self).public_channel_info is Some,
        ensures
            r == (old(self).public_channel_info.unwrap().tlc_expiry_delta != value),
            *final(self) == (ChannelActorState {
                public_channel_info: Some(
                    PublicChannelInfo { tlc_expiry_delta: value, ..old(self).public_channel_info.unwrap() },
                ),
                ..*old(self)
            }),
    {
        let mut info = self.public_channel_info.unwrap();
        let changed = info.tlc_expiry_delta != value;
        info.tlc_expiry_delta = value;
        self.public_channel_info = Some(info);
        changed
    }

    /// Apply an update command to a public channel's settings, in the order
    /// enabled, expiry delta, minimum value, fee rate; returns whether
    /// anything changed (and a channel update is due). A private channel is
    /// an `InvalidState`; an expiry delta under `MIN_TLC_EXPIRY_DELTA` is an
    /// `InvalidParameter`, raised after `enabled` has been applied.
    pub fn apply_update_command(&mut self, command: UpdateCommand) -> (r: Result<bool, ProcessingChannelError>)
        ensures
            old(self).public_channel_info is None ==> r is Err && r->Err_0 is InvalidState && *final(self)
                == *old(self),
            old(self).public_channel_info is Some ==> {
                let info = old(self).public_channel_info.unwrap();
                let enabled = match command.enabled {
                    Some(e) => e,
                    None => info.enabled,
                };
                let bad_delta = command.tlc_expiry_delta is Some && command.tlc_expiry_delta.unwrap()
                    < MIN_TLC_EXPIRY_DELTA;
                let new_info = PublicChannelInfo {
                    enabled,
                    tlc_expiry_delta: match command.tlc_expiry_delta {
                        Some(d) => d,
                        None => info.tlc_expiry_delta,
                    },
                    tlc_min_value: match command.tlc_minimum_value {
                        Some(v) => v,
                        None => info.tlc_min_value,
                    },
                    tlc_fee_proportional_millionths: match command.tlc_fee_proportional_millionths {
                        Some(f) => f,
                        None => info.tlc_fee_proportional_millionths,
                    },
                };
                &&& bad_delta ==> r is Err && r->Err_0 is InvalidParameter && *final(self) == (
                ChannelActorState {
                    public_channel_info: Some(PublicChannelInfo { enabled, ..info }),
                    ..*old(self)
                })
                &&& !bad_delta ==> r == Ok::<bool, ProcessingChannelError>(new_info != info)
                    && *final(self) == (ChannelActorState {
                    public_channel_info: Some(new_info),
                    ..*old(self)
                })
            },
    {
        if !self.is_public() {
            return Err(ProcessingChannelError::InvalidState("only a public channel can be updated".to_string()));
        }
        let mut updated = false;
        match command.enabled {
            Some(enabled) => {
                let changed = self.update_our_enabled(enabled);
                updated = updated || changed;
            },
            None => {},
        }
        match command.tlc_expiry_delta {
            Some(delta) => {
                if delta < MIN_TLC_EXPIRY_DELTA {
                    return Err(ProcessingChannelError::InvalidParameter("tlc expiry delta is too small".to_string()));
                }
                let changed = self.update_our_tlc_expiry_delta(delta);
                updated = updated || changed;
            },
            None => {},
        }
        match command.tlc_minimum_value {
            Some(value) => {
                let changed = self.update_our_tlc_min_value(value);
                updated = updated || changed;
            },
            None => {},
        }
        match command.tlc_fee_proportional_millionths {
            Some(fee) => {
                let changed = self.update_our_tlc_fee_proportional_millionths(fee);
                updated = updated || changed;
            },
            None => {},
        }
        Ok(updated)
    }

    /// Both sides' native reserves together.
    pub fn get_total_reserved_ckb_amount(&self) -> (r: u128)
        ensures
            r == self.local_reserved_ckb_amount + self.remote_reserved_ckb_amount,
    {
        self.local_reserved_ckb_amount as u128 + self.remote_reserved_ckb_amount as u128
    }

    /// Both balances together.
    pub fn get_total_udt_amount(&self) -> (r: u128)
        requires
            self.wf(),
        ensures
            r == self.to_local_amount + self.to_remote_amount,
    {
        self.to_local_amount + self.to_remote_amount
    }

    /// Both balances and both reserves together.
    pub fn get_total_ckb_amount(&self) -> (r: u128)
        requires
            self.wf(),
        ensures
            r == self.to_local_amount + self.to_remote_amount + self.local_reserved_ckb_amount
                + self.remote_reserved_ckb_amount,
    {
        self.to_local_amount + self.to_remote_amount + self.get_total_reserved_ckb_amount()
    }

    /// The capacity advertised for routing: both balances, reserves excluded.
    pub fn get_liquid_capacity(&self) -> (r: u128)
        requires
            self.wf(),
        ensures
            r == self.to_local_amount + self.to_remote_amount,
    {
        self.get_total_udt_amount()
    }

    /// What the funding cell holds in native capacity: both reserves, plus
    /// both balances when the channel holds the native currency.
    pub open spec fn total_capacity(&self) -> int {
        if self.funding_udt_type_script is Some {
            self.local_reserved_ckb_amount + self.remote_reserved_ckb_amount
        } else {
            self.to_local_amount + self.to_remote_amount + self.local_reserved_ckb_amount
                + self.remote_reserved_ckb_amount
        }
    }

    /// The native capacity one side takes out on a cooperative close,
    /// before its share of the fee.
    pub open spec fn side_capacity(&self, local: bool) -> int {
        let reserved = if local { self.local_reserved_ckb_amount } else { self.remote_reserved_ckb_amount };
        let balance = if local { self.to_local_amount } else { self.to_remote_amount };
        if self.funding_udt_type_script is Some {
            reserved as int
        } else {
            balance + reserved
        }
    }

    /// The capacities of the two shutdown outputs (ours, theirs): each side's
    /// capacity less its shutdown fee; `None` when a side cannot pay its fee.
    pub fn shutdown_output_capacities(&self, local_shutdown_fee: u64, remote_shutdown_fee: u64) -> (r: Option<
        (u128, u128),
    >)
        requires
            self.wf(),
        ensures
            r is Some <==> (local_shutdown_fee <= self.side_capacity(true) && remote_shutdown_fee
                <= self.side_capacity(false)),
            r is Some ==> r.unwrap().0 == self.side_capacity(true) - local_shutdown_fee && r.unwrap().1
                == self.side_capacity(false) - remote_shutdown_fee,
    {
        let (local, remote) = if self.funding_udt_type_script.is_some() {
            (self.local_reserved_ckb_amount as u128, self.remote_reserved_ckb_amount as u128)
        } else {
            (
                self.to_local_amount + self.local_reserved_ckb_amount as u128,
                self.to_remote_amount + self.remote_reserved_ckb_amount as u128,
            )
        };
        if local < local_shutdown_fee as u128 || remote < remote_shutdown_fee as u128 {
            return None;
        }
        Some((local - local_shutdown_fee as u128, remote - remote_shutdown_fee as u128))
    }

    /// The capacity of the output that a revocation pays to its holder: the
    /// whole funding capacity less the commitment fee; `None` when the fee
    /// exceeds it.
    pub fn revocation_output_capacity(&self, commitment_tx_fee: u64) -> (r: Option<u128>)
        requires
            self.wf(),
        ensures
            r is Some <==> commitment_tx_fee <= self.total_capacity(),
            r is Some ==> r.unwrap() == self.total_capacity() - commitment_tx_fee,
    {
        let total = if self.funding_udt_type_script.is_some() {
            self.get_total_reserved_ckb_amount()
        } else {
            self.get_total_ckb_amount()
        };
        if total < commitment_tx_fee as u128 {
            return None;
        }
        Some(total - commitment_tx_fee as u128)
    }

    /// Whether the peer's shutdown may be accepted without asking: its fee
    /// rate reaches the commitment fee rate and its side can pay
    /// `shutdown_fee` out of what is left above `occupied_capacity` (the
    /// occupied capacity of its close output; `None` when that could not be
    /// computed).
    pub fn check_valid_to_auto_accept_shutdown(&self, shutdown_fee: u64, occupied_capacity: Option<u64>) -> (r: bool)
        requires
            self.wf(),
        ensures
            r == match self.remote_shutdown_info {
                Some(info) => info.fee_rate >= self.commitment_fee_rate && occupied_capacity is Some
                    && (shutdown_fee + occupied_capacity.unwrap() <= self.side_capacity(false)
                    || shutdown_fee == 0),
                None => false,
            },
    {
        let remote_fee_rate = match &self.remote_shutdown_info {
            Some(info) => info.fee_rate,
            None => {
                return false;
            },
        };
        if remote_fee_rate < self.commitment_fee_rate {
            return false;
        }
        let occupied = match occupied_capacity {
            Some(c) => c,
            None => {
                return false;
            },
        };
        let funds: u128 = if self.funding_udt_type_script.is_none() {
            self.to_remote_amount + self.remote_reserved_ckb_amount as u128
        } else {
            self.remote_reserved_ckb_amount as u128
        };
        let available: u128 = if funds >= occupied as u128 {
            funds - occupied as u128
        } else {
            0
        };
        (shutdown_fee as u128) <= available
    }

    /// Check our own shutdown proposal: its fee rate must reach the
    /// commitment fee rate, and our side must pay `shutdown_fee` out of what
    /// is left above `occupied_capacity` (`None` when it could not be computed).
    pub fn check_shutdown_fee_rate(&self, fee_rate: u64, shutdown_fee: u64, occupied_capacity: Option<u64>) -> (r:
        Result<(), ProcessingChannelError>)
        requires
            self.wf(),
        ensures
            fee_rate < self.commitment_fee_rate ==> r is Err && r->Err_0 is InvalidParameter,
            fee_rate >= self.commitment_fee_rate && occupied_capacity is None ==> r is Err
                && r->Err_0 is CapacityError,
            fee_rate >= self.commitment_fee_rate && occupied_capacity is Some ==> (r is Ok <==> (
            shutdown_fee + occupied_capacity.unwrap() <= self.side_capacity(true) || shutdown_fee == 0)),
            r is Err ==> (r->Err_0 is InvalidParameter || r->Err_0 is CapacityError),
    {
        if fee_rate < self.commitment_fee_rate {
            return Err(ProcessingChannelError::InvalidParameter("fee rate below the commitment fee rate".to_string()));
        }
        let occupied = match occupied_capacity {
            Some(c) => c,
            None => {
                return Err(ProcessingChannelError::CapacityError("occupied capacity overflow".to_string()));
            },
        };
        let funds: u128 = if self.funding_udt_type_script.is_none() {
            self.to_local_amount + self.local_reserved_ckb_amount as u128
        } else {
            self.local_reserved_ckb_amount as u128
        };
        let available: u128 = if funds >= occupied as u128 {
            funds - occupied as u128
        } else {
            0
        };
        if shutdown_fee as u128 > available {
            return Err(ProcessingChannelError::InvalidParameter("balance too low to pay the fee".to_string()));
        }
        Ok(())
    }

    /// Whether we are party 0 of the musig2 aggregation: our funding key
    /// sorts before or equal to the peer's.
    pub fn should_local_go_first_in_musig2(&self) -> (r: bool)
        requires
            self.remote_channel_public_keys is Some,
        ensures
            r == lex_le(
                self.local_channel_public_keys.funding_pubkey@,
                self.remote_channel_public_keys.unwrap().funding_pubkey@,
            ),
    {
        let remote = self.remote_channel_public_keys.unwrap();
        bytes_le(self.local_channel_public_keys.funding_pubkey.as_slice(), remote.funding_pubkey.as_slice())
    }

    /// Put our item and the peer's in musig2 party order.
    pub fn order_things_for_musig2<T>(&self, holder: T, counterparty: T) -> (r: [T; 2])
        requires
            self.remote_channel_public_keys is Some,
        ensures
            r@ == if lex_le(
                self.local_channel_public_keys.funding_pubkey@,
                self.remote_channel_public_keys.unwrap().funding_pubkey@,
            ) {
                seq![holder, counterparty]
            } else {
                seq![counterparty, holder]
            },
    {
        let r = if self.should_local_go_first_in_musig2() {
            [holder, counterparty]
        } else {
            [counterparty, holder]
        };
        proof {
            assert(r@ =~= if lex_le(
                self.local_channel_public_keys.funding_pubkey@,
                self.remote_channel_public_keys.unwrap().funding_pubkey@,
            ) {
                seq![holder, counterparty]
            } else {
                seq![counterparty, holder]
            });
        }
        r
    }

    /// Whether we send `TxSignatures` first: we hold less than the peer, or
    /// as much and we are musig2 party 0.
    pub fn should_local_send_tx_signatures_first(&self) -> (r: bool)
        requires
            self.remote_channel_public_keys is Some,
        ensures
            r == (self.to_local_amount < self.to_remote_amount || (self.to_local_amount
                == self.to_remote_amount && lex_le(
                self.local_channel_public_keys.funding_pubkey@,
                self.remote_channel_public_keys.unwrap().funding_pubkey@,
            ))),
    {
        self.to_local_amount < self.to_remote_amount || (self.to_local_amount == self.to_remote_amount
            && self.should_local_go_first_in_musig2())
    }

    /// Whether we are node 1 of the channel: our node key sorts strictly before the peer's.
    pub fn local_is_node1(&self) -> (r: bool)
        ensures
            r == (lex_le(self.local_pubkey@, self.remote_pubkey@) && self.local_pubkey@
                != self.remote_pubkey@),
    {
        bytes_le(self.local_pubkey.as_slice(), self.remote_pubkey.as_slice()) && !crate::tlc::bytes_equal(
            self.local_pubkey.as_slice(),
            self.remote_pubkey.as_slice(),
        )
    }

    /// Record the preimage of received TLC `tlc_id`.
    pub fn set_received_tlc_preimage(&mut self, tlc_id: u64, preimage: Option<Hash256>)
        requires
            old(self).wf(),
        ensures
            final(self).wf(),
            final(self).tlc_state.remote().ops() == crate::ledger::set_preimage_in(
                old(self).tlc_state.remote().ops(),
                TLCId::Received(tlc_id),
                preimage,
            ),
            final(self).tlc_state.local() == old(self).tlc_state.local(),
            final(self).to_local_amount == old(self).to_local_amount,
            final(self).to_remote_amount == old(self).to_remote_amount,
            final(self).commitment_numbers == old(self).commitment_numbers,
    {
        self.tlc_state.set_payment_preimage(TLCId::Received(tlc_id), preimage);
    }

    /// Whether any live TLC is left.
    pub fn any_tlc_pending(&self) -> (r: bool)
        ensures
            r == exists|id: TLCId| has_live_add(self.tlc_state.all_ops(), id),
    {
        let all = self.tlc_state.all_tlc_operations();
        let mut i: usize = 0;
        while i < all.len()
            invariant
                i <= all@.len(),
                views(all@) == self.tlc_state.all_ops(),
                forall|j: int| 0 <= j < i ==> !(#[trigger] views(all@)[j]).is_live_add(),
            decreases all@.len() - i,
        {
            assert(views(all@)[i as int] == all@[i as int]@);
            match &all[i] {
                TlcKind::AddTlc(info) => {
                    if info.removed_at.is_none() {
                        proof {
                            assert(has_live_add(self.tlc_state.all_ops(), info.tlc_id));
                        }
                        return true;
                    }
                },
                _ => {},
            }
            i = i + 1;
        }
        proof {
            assert forall|id: TLCId| !has_live_add(self.tlc_state.all_ops(), id) by {
                if has_live_add(self.tlc_state.all_ops(), id) {
                    let j = choose|j: int|
                        0 <= j < self.tlc_state.all_ops().len() && (#[trigger] self.tlc_state.all_ops()[j]).is_live_add()
                            && self.tlc_state.all_ops()[j].tlc_id() == id;
                }
            }
        }
        false
    }

    /// Whether we go first in musig2 party order.
    pub open spec fn local_first(&self) -> bool {
        lex_le(
            self.local_channel_public_keys.funding_pubkey@,
            self.remote_channel_public_keys.unwrap().funding_pubkey@,
        )
    }

    /// The nonce seed of our musig2 nonce for commitment `n`.
    pub open spec fn spec_nonce_seed(&self, n: u64) -> Option<Seq<u8>> {
        match secp_public_key(commitment_secret(self.signer.commitment_seed@, n)) {
            Some(point) => secp_tweak_secret_key(self.signer.musig2_base_nonce@, ckb_blake2b_256(point)),
            None => None,
        }
    }

    /// Our musig2 public nonce for the current local commitment number
    /// (`next`: for the one after it), when every key involved is valid.
    pub fn get_local_nonce_for(&self, next: bool) -> (r: Option<PubNonceBytes>)
        requires
            !next || self.commitment_numbers.local < u64::MAX,
        ensures
            ({
                let n = if next { (self.commitment_numbers.local + 1) as u64 } else { self.commitment_numbers.local };
                match self.spec_nonce_seed(n) {
                    Some(seed) => opt_view(r) == musig2_public_nonce(seed, self.signer.funding_key@),
                    None => r is None,
                }
            }),
    {
        let n = if next {
            self.get_local_commitment_number() + 1
        } else {
            self.get_local_commitment_number()
        };
        match self.signer.derive_musig2_nonce(n) {
            Some(seed) => public_nonce_of(&seed, &self.signer.funding_key),
            None => None,
        }
    }

    /// Our musig2 public nonce for the current local commitment number.
    pub fn get_local_nonce(&self) -> (r: Option<PubNonceBytes>)
        ensures
            match self.spec_nonce_seed(self.commitment_numbers.local) {
                Some(seed) => opt_view(r) == musig2_public_nonce(seed, self.signer.funding_key@),
                None => r is None,
            },
    {
        self.get_local_nonce_for(false)
    }

    /// Our musig2 public nonce for the next local commitment number.
    pub fn get_next_local_nonce(&self) -> (r: Option<PubNonceBytes>)
        requires
            self.commitment_numbers.local < u64::MAX,
        ensures
            match self.spec_nonce_seed((self.commitment_numbers.local + 1) as u64) {
                Some(seed) => opt_view(r) == musig2_public_nonce(seed, self.signer.funding_key@),
                None => r is None,
            },
    {
        self.get_local_nonce_for(true)
    }

    /// Both funding keys in musig2 party order.
    pub fn get_musig2_keys(&self) -> (r: [Pubkey; 2])
        requires
            self.remote_channel_public_keys is Some,
        ensures
            r@ == if self.local_first() {
                seq![self.local_channel_public_keys.funding_pubkey, self.remote_channel_public_keys.unwrap().funding_pubkey]
            } else {
                seq![self.remote_channel_public_keys.unwrap().funding_pubkey, self.local_channel_public_keys.funding_pubkey]
            },
    {
        let remote = self.remote_channel_public_keys.unwrap();
        self.order_things_for_musig2(self.local_channel_public_keys.funding_pubkey, remote.funding_pubkey)
    }

    /// The x-only key of the funding cell's lock: the aggregate of both
    /// funding keys in party order.
    pub fn get_funding_lock_script_xonly(&self) -> (r: Option<[u8; 32]>)
        requires
            self.remote_channel_public_keys is Some,
        ensures
            ({
                let l = self.local_channel_public_keys.funding_pubkey@;
                let m = self.remote_channel_public_keys.unwrap().funding_pubkey@;
                opt_view(r) == if self.local_first() { musig2_agg_xonly(l, m) } else { musig2_agg_xonly(m, l) }
            }),
    {
        let keys = self.get_musig2_keys();
        aggregated_xonly_pubkey(&keys[0], &keys[1])
    }

    /// The context in which we partially sign: keys and nonces in party
    /// order (ours for the current local number, the peer's current one),
    /// our funding key and our nonce seed; `None` when a nonce is missing.
    pub fn get_sign_context(&self) -> (r: Option<Musig2SignContext>)
        requires
            self.remote_channel_public_keys is Some,
        ensures
            r is Some ==> {
                let c = r.unwrap();
                &&& c.seckey == self.signer.funding_key
                &&& Some(c.nonce_seed@) == self.spec_nonce_seed(self.commitment_numbers.local)
                &&& c.keys@ == if self.local_first() {
                    seq![self.local_channel_public_keys.funding_pubkey, self.remote_channel_public_keys.unwrap().funding_pubkey]
                } else {
                    seq![self.remote_channel_public_keys.unwrap().funding_pubkey, self.local_channel_public_keys.funding_pubkey]
                }
                &&& exists|i: int|
                    0 <= i < self.remote_nonces@.len() && self.remote_nonces@[i].0 == self.commitment_numbers.remote
                        && c.nonces@ == if self.local_first() {
                        seq![c.nonces[0], self.remote_nonces@[i].1]
                    } else {
                        seq![self.remote_nonces@[i].1, c.nonces[1]]
                    }
            },
    {
        let seed = match self.signer.derive_musig2_nonce(self.get_local_commitment_number()) {
            Some(s) => s,
            None => {
                return None;
            },
        };
        let local_nonce = match public_nonce_of(&seed, &self.signer.funding_key) {
            Some(n) => n,
            None => {
                return None;
            },
        };
        let remote_nonce = match self.get_remote_nonce() {
            Some(n) => n,
            None => {
                return None;
            },
        };
        let keys = self.get_musig2_keys();
        let nonces = self.order_things_for_musig2(local_nonce, remote_nonce);
        Some(Musig2SignContext { keys, nonces, seckey: self.signer.funding_key, nonce_seed: seed })
    }

    /// The context in which we check the peer's partial signatures: keys and
    /// nonces in party order and the peer's funding key and current nonce.
    pub fn get_verify_context(&self) -> (r: Option<Musig2VerifyContext>)
        requires
            self.remote_channel_public_keys is Some,
        ensures
            r is Some ==> {
                let c = r.unwrap();
                &&& c.pubkey == self.remote_channel_public_keys.unwrap().funding_pubkey
                &&& c.keys@ == if self.local_first() {
                    seq![self.local_channel_public_keys.funding_pubkey, self.remote_channel_public_keys.unwrap().funding_pubkey]
                } else {
                    seq![self.remote_channel_public_keys.unwrap().funding_pubkey, self.local_channel_public_keys.funding_pubkey]
                }
                &&& c.nonces@ == if self.local_first() { seq![c.nonces[0], c.pubnonce] } else { seq![c.pubnonce, c.nonces[1]] }
                &&& exists|i: int|
                    0 <= i < self.remote_nonces@.len() && self.remote_nonces@[i] == (self.commitment_numbers.remote, c.pubnonce)
            },
    {
        let local_nonce = match self.get_local_nonce() {
            Some(n) => n,
            None => {
                return None;
            },
        };
        let remote_nonce = match self.get_remote_nonce() {
            Some(n) => n,
            None => {
                return None;
            },
        };
        let remote = self.remote_channel_public_keys.unwrap();
        let keys = self.get_musig2_keys();
        let nonces = self.order_things_for_musig2(local_nonce, remote_nonce);
        Some(Musig2VerifyContext { keys, nonces, pubkey: remote.funding_pubkey, pubnonce: remote_nonce })
    }

    /// The amount fulfilled by the staged removes of one side, replayed
    /// over the live committed adds of the given direction (`offered`):
    /// our staging over our then the peer's committed operations for the
    /// peer's commitment (`for_remote`), the mirror for ours.
    pub open spec fn spec_pending_fulfilled(&self, for_remote: bool, offered: bool) -> nat {
        let (first, second) = if for_remote {
            (self.tlc_state.local(), self.tlc_state.remote())
        } else {
            (self.tlc_state.remote(), self.tlc_state.local())
        };
        replay(committed_pending(first.committed_ops() + second.committed_ops(), offered), first.staging_ops()).1
    }

    /// The pending fulfilled amount (see `spec_pending_fulfilled`); `None` on overflow.
    pub fn get_pending_fulfilled_tlcs_amount(&self, for_remote: bool, offered: bool) -> (r: Option<u128>)
        requires
            self.tlc_state.wf(),
        ensures
            r == if self.spec_pending_fulfilled(for_remote, offered) > u128::MAX {
                None::<u128>
            } else {
                Some(self.spec_pending_fulfilled(for_remote, offered) as u128)
            },
    {
        let (first, second) = if for_remote {
            (self.tlc_state.local_pending(), self.tlc_state.remote_pending())
        } else {
            (self.tlc_state.remote_pending(), self.tlc_state.local_pending())
        };
        let mut committed = crate::ledger::clone_ops(first.get_committed_tlcs());
        let mut other = crate::ledger::clone_ops(second.get_committed_tlcs());
        committed.append(&mut other);
        proof {
            assert(views(committed@) =~= first.committed_ops() + second.committed_ops());
        }
        pending_fulfilled_amount(committed.as_slice(), first.get_staging_tlcs(), offered)
    }

    /// The balances the settlement of a commitment pays: each side's
    /// balance with the pending fulfills applied (ours, then the peer's).
    pub open spec fn settlement_values(&self, for_remote: bool) -> (int, int) {
        let offered = self.spec_pending_fulfilled(for_remote, true);
        let received = self.spec_pending_fulfilled(for_remote, false);
        (self.to_local_amount - offered + received, self.to_remote_amount - received + offered)
    }

    /// The two settlement outputs of a commitment (`for_remote`: the
    /// peer's), as (capacity, token amount) pairs, ours first for the peer's
    /// commitment and theirs first for ours. Each side's capacity is its
    /// reserve less the commitment fee, plus its settled balance when the
    /// channel holds the native currency (then the token amounts are 0).
    /// `None` when an amount goes negative or does not fit.
    pub fn settlement_output_amounts(&self, for_remote: bool, commitment_tx_fee: u64) -> (r: Option<
        [(u128, u128); 2],
    >)
        requires
            self.wf(),
        ensures
            r is Some <==> ({
                let offered = self.spec_pending_fulfilled(for_remote, true);
                let received = self.spec_pending_fulfilled(for_remote, false);
                let (lv, rv) = self.settlement_values(for_remote);
                &&& offered <= u128::MAX && received <= u128::MAX
                &&& self.to_local_amount >= offered && lv <= u128::MAX
                &&& self.to_remote_amount >= received && rv <= u128::MAX
                &&& self.local_reserved_ckb_amount >= commitment_tx_fee
                &&& self.remote_reserved_ckb_amount >= commitment_tx_fee
                &&& self.funding_udt_type_script is None ==> (lv + self.local_reserved_ckb_amount
                    - commitment_tx_fee <= u128::MAX && rv + self.remote_reserved_ckb_amount - commitment_tx_fee
                    <= u128::MAX)
            }),
            r is Some ==> {
                let (lv, rv) = self.settlement_values(for_remote);
                let udt = self.funding_udt_type_script is Some;
                let ours = if udt {
                    (self.local_reserved_ckb_amount - commitment_tx_fee, lv)
                } else {
                    (lv + self.local_reserved_ckb_amount - commitment_tx_fee, 0)
                };
                let theirs = if udt {
                    (self.remote_reserved_ckb_amount - commitment_tx_fee, rv)
                } else {
                    (rv + self.remote_reserved_ckb_amount - commitment_tx_fee, 0)
                };
                let pair = |x: (u128, u128)| (x.0 as int, x.1 as int);
                &&& for_remote ==> pair(r.unwrap()[0]) == ours && pair(r.unwrap()[1]) == theirs
                &&& !for_remote ==> pair(r.unwrap()[0]) == theirs && pair(r.unwrap()[1]) == ours
            },
    {
        let offered = match self.get_pending_fulfilled_tlcs_amount(for_remote, true) {
            Some(v) => v,
            None => {
                return None;
            },
        };
        let received = match self.get_pending_fulfilled_tlcs_amount(for_remote, false) {
            Some(v) => v,
            None => {
                return None;
            },
        };
        let to_local_value = match (self.to_local_amount as u128).checked_sub(offered) {
            Some(v) => match v.checked_add(received) {
                Some(w) => w,
                None => {
                    return None;
                },
            },
            None => {
                return None;
            },
        };
        let to_remote_value = match self.to_remote_amount.checked_sub(received) {
            Some(v) => match v.checked_add(offered) {
                Some(w) => w,
                None => {
                    return None;
                },
            },
            None => {
                return None;
            },
        };
        let fee = commitment_tx_fee as u128;
        let local_reserved = self.local_reserved_ckb_amount as u128;
        let remote_reserved = self.remote_reserved_ckb_amount as u128;
        if local_reserved < fee || remote_reserved < fee {
            return None;
        }
        let (ours, theirs) = if self.funding_udt_type_script.is_some() {
            ((local_reserved - fee, to_local_value), (remote_reserved - fee, to_remote_value))
        } else {
            let l = match to_local_value.checked_add(local_reserved - fee) {
                Some(v) => v,
                None => {
                    return None;
                },
            };
            let m = match to_remote_value.checked_add(remote_reserved - fee) {
                Some(v) => v,
                None => {
                    return None;
                },
            };
            ((l, 0u128), (m, 0u128))
        };
        if for_remote {
            Some([ours, theirs])
        } else {
            Some([theirs, ours])
        }
    }

    /// The channel update a public channel announces at time `now`: sent as
    /// node 1 when our node key sorts first, with our forwarding settings;
    /// `None` for a private channel.
    pub fn get_unsigned_channel_update_message(&self, now: u64) -> (r: Option<UnsignedChannelUpdate>)
        ensures
            r == self.get_unsigned_channel_update_message_spec(now),
    {
        let message_flags = if self.local_is_node1() {
            MESSAGE_OF_NODE1_FLAG
        } else {
            MESSAGE_OF_NODE2_FLAG
        };
        match self.public_channel_info {
            Some(info) => Some(
                UnsignedChannelUpdate {
                    timestamp: now,
                    message_flags,
                    channel_flags: 0,
                    tlc_expiry_delta: info.tlc_expiry_delta,
                    tlc_minimum_value: info.tlc_min_value,
                    tlc_fee_proportional_millionths: info.tlc_fee_proportional_millionths,
                },
            ),
            None => None,
        }
    }

    /// The update that announces the channel disabled, at time `now`.
    pub fn get_disabled_channel_update_message(&self, now: u64) -> (r: Option<UnsignedChannelUpdate>)
        ensures
            match self.get_unsigned_channel_update_message_spec(now) {
                Some(u) => r == Some(UnsignedChannelUpdate { channel_flags: CHANNEL_DISABLED_FLAG, ..u }),
                None => r is None,
            },
    {
        match self.get_unsigned_channel_update_message(now) {
            Some(u) => Some(UnsignedChannelUpdate { channel_flags: CHANNEL_DISABLED_FLAG, ..u }),
            None => None,
        }
    }

    /// The channel update a public channel announces at time `now`.
    pub open spec fn get_unsigned_channel_update_message_spec(&self, now: u64) -> Option<UnsignedChannelUpdate> {
        match self.public_channel_info {
            Some(info) => Some(
                UnsignedChannelUpdate {
                    timestamp: now,
                    message_flags: if lex_le(self.local_pubkey@, self.remote_pubkey@) && self.local_pubkey@
                        != self.remote_pubkey@ {
                        MESSAGE_OF_NODE1_FLAG
                    } else {
                        MESSAGE_OF_NODE2_FLAG
                    },
                    channel_flags: 0,
                    tlc_expiry_delta: info.tlc_expiry_delta,
                    tlc_minimum_value: info.tlc_min_value,
                    tlc_fee_proportional_millionths: info.tlc_fee_proportional_millionths,
                },
            ),
            None => None,
        }
    }

    /// Check our opening parameters: `occupied_capacity` is the occupied
    /// capacity of our close output (`None`: it overflowed, a
    /// `CapacityError`), which our reserve must cover; the fee rates must
    /// reach the defaults; and twice the commitment fee must fit in what the
    /// reserve leaves above the occupied capacity.
    pub fn check_open_channel_parameters(&self, occupied_capacity: Option<u64>, commitment_fee: u64) -> (r: Result<
        (),
        ProcessingChannelError,
    >)
        ensures
            occupied_capacity is None ==> r is Err && r->Err_0 is CapacityError,
            occupied_capacity is Some ==> (r is Ok <==> (self.local_reserved_ckb_amount >= occupied_capacity.unwrap()
                && self.funding_fee_rate >= DEFAULT_FEE_RATE && self.commitment_fee_rate >= DEFAULT_COMMITMENT_FEE_RATE
                && 2 * commitment_fee <= self.local_reserved_ckb_amount - occupied_capacity.unwrap())),
            occupied_capacity is Some && r is Err ==> r->Err_0 is InvalidParameter,
    {
        let occupied = match occupied_capacity {
            Some(c) => c,
            None => {
                return Err(ProcessingChannelError::CapacityError("occupied capacity overflow".to_string()));
            },
        };
        if self.local_reserved_ckb_amount < occupied {
            return Err(ProcessingChannelError::InvalidParameter("reserve below the occupied capacity".to_string()));
        }
        if self.funding_fee_rate < DEFAULT_FEE_RATE {
            return Err(ProcessingChannelError::InvalidParameter("funding fee rate too low".to_string()));
        }
        if self.commitment_fee_rate < DEFAULT_COMMITMENT_FEE_RATE {
            return Err(ProcessingChannelError::InvalidParameter("commitment fee rate too low".to_string()));
        }
        if 2 * (commitment_fee as u128) > (self.local_reserved_ckb_amount - occupied) as u128 {
            return Err(ProcessingChannelError::InvalidParameter("commitment fee above half the reserve".to_string()));
        }
        Ok(())
    }

    /// Check the peer's accepting parameters: at most
    /// `MAX_TLC_NUMBER_IN_FLIGHT` TLCs in flight; `occupied_capacity` is the
    /// occupied capacity of its close output (`None`: a `CapacityError`),
    /// which its reserve must cover with room for twice the commitment fee.
    pub fn check_accept_channel_parameters(&self, occupied_capacity: Option<u64>, commitment_fee: u64) -> (r: Result<
        (),
        ProcessingChannelError,
    >)
        ensures
            self.remote_constraints.max_tlc_number_in_flight > MAX_TLC_NUMBER_IN_FLIGHT ==> r is Err
                && r->Err_0 is InvalidParameter,
            self.remote_constraints.max_tlc_number_in_flight <= MAX_TLC_NUMBER_IN_FLIGHT && occupied_capacity is None
                ==> r is Err && r->Err_0 is CapacityError,
            r is Ok <==> (self.remote_constraints.max_tlc_number_in_flight <= MAX_TLC_NUMBER_IN_FLIGHT
                && occupied_capacity is Some && self.remote_reserved_ckb_amount >= occupied_capacity.unwrap() && 2
                * commitment_fee <= self.remote_reserved_ckb_amount - occupied_capacity.unwrap()),
    {
        if self.remote_constraints.max_tlc_number_in_flight > MAX_TLC_NUMBER_IN_FLIGHT {
            return Err(ProcessingChannelError::InvalidParameter("too many tlcs in flight".to_string()));
        }
        let occupied = match occupied_capacity {
            Some(c) => c,
            None => {
                return Err(ProcessingChannelError::CapacityError("occupied capacity overflow".to_string()));
            },
        };
        if self.remote_reserved_ckb_amount < occupied {
            return Err(ProcessingChannelError::InvalidParameter("reserve below the occupied capacity".to_string()));
        }
        if 2 * (commitment_fee as u128) > (self.remote_reserved_ckb_amount - occupied) as u128 {
            return Err(ProcessingChannelError::InvalidParameter("commitment fee above half the reserve".to_string()));
        }
        Ok(())
    }

    pub fn get_local_channel_public_keys(&self) -> (r: &ChannelBasePublicKeys)
        ensures
            *r == self.local_channel_public_keys,
    {
        &self.local_channel_public_keys
    }

    pub fn get_remote_channel_public_keys(&self) -> (r: Option<ChannelBasePublicKeys>)
        ensures
            r == self.remote_channel_public_keys,
    {
        self.remote_channel_public_keys
    }

    pub fn get_local_funding_pubkey(&self) -> (r: Pubkey)
        ensures
            r == self.local_channel_public_keys.funding_pubkey,
    {
        self.local_channel_public_keys.funding_pubkey
    }

    pub fn get_remote_funding_pubkey(&self) -> (r: Option<Pubkey>)
        ensures
            r == match self.remote_channel_public_keys {
                Some(k) => Some(k.funding_pubkey),
                None => None::<Pubkey>,
            },
    {
        match self.remote_channel_public_keys {
            Some(k) => Some(k.funding_pubkey),
            None => None,
        }
    }

    pub fn get_local_shutdown_script(&self) -> (r: Vec<u8>)
        ensures
            r@ == self.local_shutdown_script@,
    {
        let r = self.local_shutdown_script.clone();
        proof {
            assert(r@ =~= self.local_shutdown_script@);
        }
        r
    }

    pub fn get_remote_shutdown_script(&self) -> (r: Option<Vec<u8>>)
        ensures
            opt_bytes(r) == opt_bytes(self.remote_shutdown_script),
    {
        clone_bytes(&self.remote_shutdown_script)
    }

    /// Our per-commitment point for `commitment_number`.
    pub fn get_local_commitment_point(&self, commitment_number: u64) -> (r: Option<Pubkey>)
        ensures
            opt_view(r) == secp_public_key(commitment_secret(self.signer.commitment_seed@, commitment_number)),
    {
        self.signer.get_commitment_point(commitment_number)
    }

    /// Our per-commitment point for the current remote commitment number,
    /// the one our next `RevokeAndAck` announces.
    pub fn get_current_local_commitment_point(&self) -> (r: Option<Pubkey>)
        ensures
            opt_view(r) == secp_public_key(
                commitment_secret(self.signer.commitment_seed@, self.commitment_numbers.remote),
            ),
    {
        self.get_local_commitment_point(self.get_remote_commitment_number())
    }

    /// The relative epoch `since` of the commitment delay, as lock-args bytes.
    pub fn get_delay_epoch_as_lock_args_bytes(&self) -> (r: Vec<u8>)
        ensures
            r@ == crate::encoding::le_bytes(
                crate::encoding::spec_since(
                    crate::encoding::SinceType::EpochNumberWithFraction,
                    self.commitment_delay_epoch,
                    true,
                ) as u128,
                8,
            ),
    {
        crate::encoding::delay_epoch_lock_args_bytes(self.commitment_delay_epoch)
    }

    /// Our live TLCs of one direction (`offered`), the first live add of each id.
    pub fn get_all_tlcs_of(&self, offered: bool) -> (r: Vec<AddTlcInfo>)
        ensures
            crate::ledger::as_adds(r@) == crate::ledger::first_live_adds(self.tlc_state.all_ops()).filter(
                |op: TlcKindView| (op.tlc_id() is Offered) == offered,
            ),
    {
        let all = self.tlc_state.all_tlcs();
        let ghost src = crate::ledger::as_adds(all@);
        let ghost keep = |op: TlcKindView| (op.tlc_id() is Offered) == offered;
        let mut out: Vec<AddTlcInfo> = Vec::new();
        let mut i: usize = 0;
        proof {
            assert(crate::ledger::as_adds(out@) =~= src.subrange(0, 0).filter(keep));
        }
        while i < all.len()
            invariant
                i <= all@.len(),
                src == crate::ledger::as_adds(all@),
                keep == (|op: TlcKindView| (op.tlc_id() is Offered) == offered),
                crate::ledger::as_adds(out@) == src.subrange(0, i as int).filter(keep),
            decreases all@.len() - i,
        {
            proof {
                assert(src.subrange(0, i + 1) =~= src.subrange(0, i as int).push(src[i as int]));
                src.subrange(0, i as int).lemma_filter_push(src[i as int], keep);
            }
            if all[i].is_offered() == offered {
                let c = all[i].clone();
                proof {
                    assert(crate::ledger::as_adds(out@.push(c)) =~= crate::ledger::as_adds(out@).push(
                        TlcKindView::AddTlc(c@),
                    ));
                }
                out.push(c);
            }
            i = i + 1;
        }
        proof {
            assert(src.subrange(0, src.len() as int) =~= src);
        }
        out
    }

    /// Our live received TLCs.
    pub fn get_all_received_tlcs(&self) -> (r: Vec<AddTlcInfo>)
        ensures
            crate::ledger::as_adds(r@) == crate::ledger::first_live_adds(self.tlc_state.all_ops()).filter(
                |op: TlcKindView| (op.tlc_id() is Offered) == false,
            ),
    {
        self.get_all_tlcs_of(false)
    }

    /// Our live offered TLCs.
    pub fn get_all_offer_tlcs(&self) -> (r: Vec<AddTlcInfo>)
        ensures
            crate::ledger::as_adds(r@) == crate::ledger::first_live_adds(self.tlc_state.all_ops()).filter(
                |op: TlcKindView| (op.tlc_id() is Offered) == true,
            ),
    {
        self.get_all_tlcs_of(true)
    }

    /// Offer a new TLC (the ledger part of an add command): it gets the next
    /// offered id and joins our staging list, and the next id moves on. It
    /// must pass the insertion checks; on error nothing changes.
    pub fn add_offered_tlc(&mut self, command: AddTlcCommand) -> (r: Result<u64, ProcessingChannelError>)
        requires
            old(self).wf(),
            old(self).tlc_state.local().next_id() < u64::MAX,
            !has_add(old(self).tlc_state.local().ops(), TLCId::Offered(old(self).tlc_state.local().next_id())),
        ensures
            final(self).wf(),
            r is Err ==> *final(self) == *old(self),
            r is Ok ==> {
                &&& r->Ok_0 == old(self).tlc_state.local().next_id()
                &&& final(self).tlc_state.local().next_id() == old(self).tlc_state.local().next_id() + 1
                &&& final(self).tlc_state.local().ops().len() == old(self).tlc_state.local().ops().len() + 1
                &&& final(self).tlc_state.local().ops().drop_last() == old(self).tlc_state.local().ops()
                &&& final(self).tlc_state.local().ops().last().tlc_id() == TLCId::Offered(r->Ok_0)
                &&& final(self).tlc_state.local().ops().last().is_live_add()
                &&& final(self).tlc_state.local().ops().last() == TlcKindView::AddTlc(AddTlcView {
                    channel_id: old(self).id,
                    tlc_id: TLCId::Offered(r->Ok_0),
                    amount: command.amount,
                    payment_hash: command.payment_hash,
                    expiry: command.expiry,
                    hash_algorithm: command.hash_algorithm,
                    onion_packet: opt_bytes(command.onion_packet),
                    shared_secret: command.shared_secret,
                    created_at: old(self).commitment_numbers,
                    removed_at: None,
                    payment_preimage: None,
                    previous_tlc: match command.previous_tlc {
                        Some((c, id)) => Some((c, TLCId::Received(id))),
                        None => None,
                    },
                })
                &&& final(self).offered_total() == old(self).offered_total() + command.amount
                &&& final(self).offered_total() <= final(self).to_local_amount
                &&& final(self).received_total() == old(self).received_total()
                &&& final(self).tlc_state.remote() == old(self).tlc_state.remote()
                &&& final(self).tlc_state.spec_waiting_ack() == old(self).tlc_state.spec_waiting_ack()
                &&& final(self).tlc_state.retry_queue() == old(self).tlc_state.retry_queue()
                &&& final(self).to_local_amount == old(self).to_local_amount
                &&& final(self).to_remote_amount == old(self).to_remote_amount
                &&& final(self).commitment_numbers == old(self).commitment_numbers
                &&& final(self).state == old(self).state
            },
            (r is Ok) <==> (!has_live_hash(old(self).tlc_state.all_ops(), command.payment_hash)
                && old(self).offered_total() + command.amount <= old(self).to_local_amount),
    {
        let tlc = self.create_outbounding_tlc(command);
        match self.check_insert_tlc(&tlc) {
            Ok(()) => {},
            Err(e) => {
                return Err(e);
            },
        }
        let id = self.get_next_offering_tlc_id();
        let op = TlcKind::AddTlc(tlc);
        proof {
            if contains_op(self.tlc_state.local().ops(), op@) {
                let i = choose|i: int|
                    0 <= i < self.tlc_state.local().ops().len() && (#[trigger] self.tlc_state.local().ops()[i]).same_operation(op@);
                assert(self.tlc_state.local().ops()[i] is AddTlc);
            }
        }
        let ghost a = self.tlc_state.local().ops();
        let ghost b = self.tlc_state.remote().ops();
        let ghost opv = op@;
        proof {
            assert(!has_live_add(a + b, opv.tlc_id())) by {
                if has_live_add(a + b, opv.tlc_id()) {
                    let j = choose|j: int| 0 <= j < (a + b).len() && (#[trigger] (a + b)[j]).is_live_add() && (a + b)[j].tlc_id() == opv.tlc_id();
                    if j < a.len() {
                        assert((a + b)[j] == a[j]);
                    } else {
                        assert((a + b)[j] == b[j - a.len()]);
                    }
                }
            }
            crate::ledger::lemma_live_insert(a, opv, b, true);
            crate::ledger::lemma_live_insert(a, opv, b, false);
        }
        self.tlc_state.add_local_tlc(op);
        self.tlc_state.increment_offering();
        proof {
            assert(self.tlc_state.all_ops() =~= a.push(opv) + b);
        }
        Ok(id)
    }

    /// Whether a TLC of `amount` in the given direction stays within that
    /// direction's limits on count and value.
    pub open spec fn tlc_limits_ok(&self, amount: u128, is_sent: bool) -> bool {
        let constraints = if is_sent { self.local_constraints } else { self.remote_constraints };
        &&& amount > 0
        &&& live_count(self.tlc_state.all_ops(), is_sent) + 1 <= constraints.max_tlc_number_in_flight
        &&& live_total(self.tlc_state.all_ops(), is_sent) + amount <= constraints.max_tlc_value_in_flight
    }

    /// Handle a command to offer a TLC at time `now`: no ack may be awaited
    /// (`WaitingTlcAck`), the channel must be ready (`InvalidState`), the
    /// amount positive and within our limits, the expiry within
    /// `[now + MIN_TLC_EXPIRY_DELTA, now + MAX_PAYMENT_TLC_EXPIRY_LIMIT)`, and
    /// the TLC must pass the insertion checks. It then joins our staging
    /// list under the next offered id, which is returned, and we wait for
    /// the peer's ack. On error nothing changes.
    pub fn add_tlc_command(&mut self, command: AddTlcCommand, now: u64) -> (r: Result<u64, ProcessingChannelError>)
        requires
            old(self).wf(),
            old(self).tlc_state.local().next_id() < u64::MAX,
        ensures
            final(self).wf(),
            r is Err ==> *final(self) == *old(self),
            old(self).tlc_state.spec_waiting_ack() ==> r is Err && r->Err_0 is WaitingTlcAck,
            !old(self).tlc_state.spec_waiting_ack() && !(old(self).state is ChannelReady) ==> r is Err
                && r->Err_0 is InvalidState,
            !old(self).tlc_state.spec_waiting_ack() && old(self).state is ChannelReady && command.amount == 0
                ==> r is Err && r->Err_0 is TlcAmountIsTooLow,
            !old(self).tlc_state.spec_waiting_ack() && old(self).state is ChannelReady && old(self).tlc_limits_ok(
                command.amount,
                true,
            ) && command.expiry < now + MIN_TLC_EXPIRY_DELTA ==> r is Err && r->Err_0 is TlcExpirySoon,
            r is Ok <==> (!old(self).tlc_state.spec_waiting_ack() && old(self).state is ChannelReady
                && old(self).tlc_limits_ok(command.amount, true) && now + MIN_TLC_EXPIRY_DELTA <= command.expiry
                < now + MAX_PAYMENT_TLC_EXPIRY_LIMIT && !has_live_hash(old(self).tlc_state.all_ops(), command.payment_hash)
                && old(self).offered_total() + command.amount <= old(self).to_local_amount),
            r is Ok ==> {
                &&& r->Ok_0 == old(self).tlc_state.local().next_id()
                &&& final(self).tlc_state.local().next_id() == old(self).tlc_state.local().next_id() + 1
                &&& final(self).tlc_state.local().ops().drop_last() == old(self).tlc_state.local().ops()
                &&& final(self).tlc_state.local().ops().last() == TlcKindView::AddTlc(AddTlcView {
                    channel_id: old(self).id,
                    tlc_id: TLCId::Offered(r->Ok_0),
                    amount: command.amount,
                    payment_hash: command.payment_hash,
                    expiry: command.expiry,
                    hash_algorithm: command.hash_algorithm,
                    onion_packet: opt_bytes(command.onion_packet),
                    shared_secret: command.shared_secret,
                    created_at: old(self).commitment_numbers,
                    removed_at: None,
                    payment_preimage: None,
                    previous_tlc: match command.previous_tlc {
                        Some((c, id)) => Some((c, TLCId::Received(id))),
                        None => None,
                    },
                })
                &&& final(self).offered_total() == old(self).offered_total() + command.amount
                &&& final(self).offered_total() <= final(self).to_local_amount
                &&& final(self).tlc_state.spec_waiting_ack()
                &&& final(self).tlc_state.remote() == old(self).tlc_state.remote()
                &&& final(self).to_local_amount == old(self).to_local_amount
                &&& final(self).to_remote_amount == old(self).to_remote_amount
                &&& final(self).commitment_numbers == old(self).commitment_numbers
            },
    {
        match self.check_for_tlc_update(Some(command.amount), true, true) {
            Ok(()) => {},
            Err(e) => {
                return Err(e);
            },
        }
        match check_tlc_expiry(command.expiry, now) {
            Ok(()) => {},
            Err(e) => {
                return Err(e);
            },
        }
        proof {
            let n = self.tlc_state.local().next_id();
            let s = self.tlc_state.local().ops();
            if has_add(s, TLCId::Offered(n)) {
                let j = choose|j: int| 0 <= j < s.len() && (#[trigger] s[j]) is AddTlc && s[j].tlc_id() == TLCId::Offered(n);
            }
        }
        let id = match self.add_offered_tlc(command) {
            Ok(id) => id,
            Err(e) => {
                return Err(e);
            },
        };
        self.tlc_state.set_waiting_ack(true);
        Ok(id)
    }

    /// Accept the peer's `AddTlc` (the ledger part): its id must be the next
    /// received one, else it is an `InvalidParameter`; it must pass the
    /// insertion checks; it then joins the peer's staging list and the next
    /// received id moves on. On error nothing changes.
    pub fn add_received_tlc(&mut self, message: AddTlc) -> (r: Result<(), ProcessingChannelError>)
        requires
            old(self).wf(),
            old(self).tlc_state.remote().next_id() < u64::MAX,
            !has_add(old(self).tlc_state.remote().ops(), TLCId::Received(old(self).tlc_state.remote().next_id())),
        ensures
            final(self).wf(),
            r is Err ==> *final(self) == *old(self),
            message.tlc_id != old(self).tlc_state.remote().next_id() ==> r is Err && r->Err_0 is InvalidParameter,
            (r is Ok) <==> (message.tlc_id == old(self).tlc_state.remote().next_id() && !has_live_hash(
                old(self).tlc_state.all_ops(),
                message.payment_hash,
            ) && old(self).received_total() + message.amount <= old(self).to_remote_amount),
            r is Ok ==> {
                &&& final(self).tlc_state.remote().next_id() == old(self).tlc_state.remote().next_id() + 1
                &&& final(self).tlc_state.remote().ops().drop_last() == old(self).tlc_state.remote().ops()
                &&& final(self).tlc_state.remote().ops().last().tlc_id() == TLCId::Received(message.tlc_id)
                &&& final(self).tlc_state.remote().ops().last().is_live_add()
                &&& final(self).tlc_state.remote().ops().last() == TlcKindView::AddTlc(AddTlcView {
                    channel_id: old(self).id,
                    tlc_id: TLCId::Received(message.tlc_id),
                    amount: message.amount,
                    payment_hash: message.payment_hash,
                    expiry: message.expiry,
                    hash_algorithm: message.hash_algorithm,
                    onion_packet: opt_bytes(message.onion_packet),
                    shared_secret: final(self).tlc_state.remote().ops().last()->AddTlc_0.shared_secret,
                    created_at: old(self).commitment_numbers,
                    removed_at: None,
                    payment_preimage: None,
                    previous_tlc: None,
                })
                &&& final(self).tlc_state.remote().ops().last()->AddTlc_0.shared_secret@ == Seq::new(32, |_i: int| 0u8)
                &&& final(self).received_total() == old(self).received_total() + message.amount
                &&& final(self).received_total() <= final(self).to_remote_amount
                &&& final(self).offered_total() == old(self).offered_total()
                &&& final(self).tlc_state.local() == old(self).tlc_state.local()
                &&& final(self).to_local_amount == old(self).to_local_amount
                &&& final(self).to_remote_amount == old(self).to_remote_amount
                &&& final(self).commitment_numbers == old(self).commitment_numbers
            },
    {
        if message.tlc_id != self.get_next_received_tlc_id() {
            return Err(ProcessingChannelError::InvalidParameter("unexpected tlc id".to_string()));
        }
        let tlc = match self.create_inbounding_tlc(message) {
            Ok(tlc) => tlc,
            Err(e) => {
                return Err(e);
            },
        };
        match self.check_insert_tlc(&tlc) {
            Ok(()) => {},
            Err(e) => {
                return Err(e);
            },
        }
        let op = TlcKind::AddTlc(tlc);
        proof {
            if contains_op(self.tlc_state.remote().ops(), op@) {
                let i = choose|i: int|
                    0 <= i < self.tlc_state.remote().ops().len() && (#[trigger] self.tlc_state.remote().ops()[i]).same_operation(op@);
                assert(self.tlc_state.remote().ops()[i] is AddTlc);
            }
        }
        let ghost a = self.tlc_state.local().ops();
        let ghost b = self.tlc_state.remote().ops();
        let ghost opv = op@;
        proof {
            assert(!has_live_add(a + b, opv.tlc_id())) by {
                if has_live_add(a + b, opv.tlc_id()) {
                    let j = choose|j: int| 0 <= j < (a + b).len() && (#[trigger] (a + b)[j]).is_live_add() && (a + b)[j].tlc_id() == opv.tlc_id();
                    if j < a.len() {
                        assert((a + b)[j] == a[j]);
                    } else {
                        assert((a + b)[j] == b[j - a.len()]);
                    }
                }
            }
            crate::ledger::lemma_live_insert(a + b, opv, Seq::empty(), true);
            crate::ledger::lemma_live_insert(a + b, opv, Seq::empty(), false);
            assert((a + b) + Seq::<TlcKindView>::empty() =~= a + b);
        }
        self.tlc_state.add_remote_tlc(op);
        self.tlc_state.increment_received();
        proof {
            assert(self.tlc_state.all_ops() =~= (a + b).push(opv) + Seq::<TlcKindView>::empty());
        }
        Ok(())
    }

    /// Whether a TLC may be resolved now: no command arrives while an ack is
    /// awaited, and the channel is ready or shutting down.
    pub open spec fn remove_allowed(&self, is_command: bool) -> bool {
        &&& !(is_command && self.tlc_state.spec_waiting_ack())
        &&& (self.state is ChannelReady || self.state is ShuttingDown)
    }

    /// Whether TLC `id` may be resolved for `reason`: it is present and not
    /// removed, and a fulfill's preimage hashes to its payment hash.
    pub open spec fn removable(&self, id: TLCId, reason: RemoveReasonView) -> bool {
        &&& has_add(self.tlc_state.side(id).ops(), id)
        &&& self.current_tlc(id).removed_at is None
        &&& (reason is Fulfill ==> spec_hash(self.current_tlc(id).hash_algorithm, reason->Fulfill_0@)
            == self.current_tlc(id).payment_hash@)
    }

    /// Queue the resolution of a TLC the peer offered (the ledger part of a
    /// remove command): the TLC update must be allowed now, the TLC must be
    /// removable for this reason, and no remove of it may be queued yet
    /// (`RepeatedProcessing`). The remove joins our staging list and we wait
    /// for the peer's ack. On error nothing changes.
    pub fn queue_local_remove(&mut self, command: RemoveTlcCommand) -> (r: Result<(), ProcessingChannelError>)
        requires
            old(self).wf(),
        ensures
            final(self).wf(),
            r is Err ==> *final(self) == *old(self),
            (old(self).remove_allowed(true) && old(self).removable(TLCId::Received(command.id), command.reason@)
                && contains_op(
                old(self).tlc_state.local().ops(),
                TlcKindView::RemoveTlc(
                    RemoveTlcView { channel_id: old(self).id, tlc_id: TLCId::Received(command.id), reason: command.reason@ },
                ),
            )) ==> r is Err && r->Err_0 is RepeatedProcessing,
            old(self).tlc_state.spec_waiting_ack() ==> r is Err && r->Err_0 is WaitingTlcAck,
            !old(self).tlc_state.spec_waiting_ack() && r is Err ==> !(r->Err_0 is WaitingTlcAck),
            (old(self).remove_allowed(true) && !has_add(old(self).tlc_state.remote().ops(), TLCId::Received(command.id))
                && last_resolution(old(self).tlc_state.resolved(), TLCId::Received(command.id)) is Some) ==> r is Err
                && r->Err_0 is RepeatedProcessing,
            r is Ok <==> (old(self).remove_allowed(true) && old(self).removable(
                TLCId::Received(command.id),
                command.reason@,
            ) && !contains_op(
                old(self).tlc_state.local().ops(),
                TlcKindView::RemoveTlc(
                    RemoveTlcView { channel_id: old(self).id, tlc_id: TLCId::Received(command.id), reason: command.reason@ },
                ),
            )),
            r is Ok ==> {
                &&& final(self).tlc_state.local().ops() == old(self).tlc_state.local().ops().push(
                    TlcKindView::RemoveTlc(
                        RemoveTlcView { channel_id: old(self).id, tlc_id: TLCId::Received(command.id), reason: command.reason@ },
                    ),
                )
                &&& final(self).tlc_state.spec_waiting_ack()
                &&& final(self).tlc_state.retry_queue() == old(self).tlc_state.retry_queue()
                &&& final(self).tlc_state.remote() == old(self).tlc_state.remote()
                &&& final(self).to_local_amount == old(self).to_local_amount
                &&& final(self).to_remote_amount == old(self).to_remote_amount
                &&& final(self).commitment_numbers == old(self).commitment_numbers
            },
    {
        let id = TLCId::Received(command.id);
        match self.check_for_tlc_update(None, true, false) {
            Ok(()) => {},
            Err(e) => {
                return Err(e);
            },
        }
        match self.check_remove_tlc_with_reason(id, &command.reason) {
            Ok(()) => {},
            Err(e) => {
                return Err(e);
            },
        }
        let op = TlcKind::RemoveTlc(RemoveTlcInfo { channel_id: self.get_id(), tlc_id: id, reason: command.reason });
        if self.tlc_state.has_local_operation(&op) {
            return Err(ProcessingChannelError::RepeatedProcessing("a remove of this tlc is queued".to_string()));
        }
        self.tlc_state.add_local_tlc(op);
        self.tlc_state.set_waiting_ack(true);
        Ok(())
    }

    /// Queue the peer's resolution of a TLC we offered (the ledger part of
    /// its `RemoveTlc`): the update must be allowed now, the TLC must be
    /// removable for this reason, and no remove of it may be queued yet
    /// (`RepeatedProcessing`). The remove joins the peer's staging list. On
    /// error nothing changes.
    pub fn queue_remote_remove(&mut self, message: RemoveTlc) -> (r: Result<(), ProcessingChannelError>)
        requires
            old(self).wf(),
        ensures
            final(self).wf(),
            r is Err ==> *final(self) == *old(self),
            (old(self).remove_allowed(false) && old(self).removable(TLCId::Offered(message.tlc_id), message.reason@)
                && contains_op(
                old(self).tlc_state.remote().ops(),
                TlcKindView::RemoveTlc(
                    RemoveTlcView { channel_id: message.channel_id, tlc_id: TLCId::Offered(message.tlc_id), reason: message.reason@ },
                ),
            )) ==> r is Err && r->Err_0 is RepeatedProcessing,
            (old(self).remove_allowed(false) && !has_add(old(self).tlc_state.local().ops(), TLCId::Offered(message.tlc_id))
                && last_resolution(old(self).tlc_state.resolved(), TLCId::Offered(message.tlc_id)) is Some) ==> r is Err
                && r->Err_0 is RepeatedProcessing,
            r is Ok <==> (old(self).remove_allowed(false) && old(self).removable(
                TLCId::Offered(message.tlc_id),
                message.reason@,
            ) && !contains_op(
                old(self).tlc_state.remote().ops(),
                TlcKindView::RemoveTlc(
                    RemoveTlcView { channel_id: message.channel_id, tlc_id: TLCId::Offered(message.tlc_id), reason: message.reason@ },
                ),
            )),
            r is Ok ==> {
                &&& final(self).tlc_state.remote().ops() == old(self).tlc_state.remote().ops().push(
                    TlcKindView::RemoveTlc(
                        RemoveTlcView { channel_id: message.channel_id, tlc_id: TLCId::Offered(message.tlc_id), reason: message.reason@ },
                    ),
                )
                &&& final(self).tlc_state.local() == old(self).tlc_state.local()
                &&& final(self).tlc_state.retry_queue() == old(self).tlc_state.retry_queue()
                &&& final(self).to_local_amount == old(self).to_local_amount
                &&& final(self).to_remote_amount == old(self).to_remote_amount
                &&& final(self).commitment_numbers == old(self).commitment_numbers
            },
    {
        let id = TLCId::Offered(message.tlc_id);
        match self.check_for_tlc_update(None, false, false) {
            Ok(()) => {},
            Err(e) => {
                return Err(e);
            },
        }
        match self.check_remove_tlc_with_reason(id, &message.reason) {
            Ok(()) => {},
            Err(e) => {
                return Err(e);
            },
        }
        let op = TlcKind::RemoveTlc(RemoveTlcInfo { channel_id: message.channel_id, tlc_id: id, reason: message.reason });
        if self.tlc_state.has_remote_operation(&op) {
            return Err(ProcessingChannelError::RepeatedProcessing("a remove of this tlc is queued".to_string()));
        }
        self.tlc_state.add_remote_tlc(op);
        Ok(())
    }

    /// The local remove that retrying queue entry `e` attempts.
    pub open spec fn retry_op(&self, e: RetryableView) -> TlcKindView {
        match e {
            RetryableView::RemoveTlc(id, reason) => TlcKindView::RemoveTlc(
                RemoveTlcView { channel_id: self.id, tlc_id: TLCId::Received(id.spec_number()), reason },
            ),
            RetryableView::RelayRemoveTlc(_, id, reason) => TlcKindView::RemoveTlc(
                RemoveTlcView { channel_id: self.id, tlc_id: TLCId::Received(id), reason },
            ),
        }
    }

    /// Whether retrying queue entry `e` would queue its local remove now.
    pub open spec fn queueable(&self, e: RetryableView) -> bool {
        match e {
            RetryableView::RemoveTlc(id, reason) => self.remove_allowed(true) && self.removable(
                TLCId::Received(id.spec_number()),
                reason,
            ) && !contains_op(self.tlc_state.local().ops(), self.retry_op(e)),
            _ => false,
        }
    }

    /// Whether entry `k` of `q` is the first one that can be queued.
    pub open spec fn first_queueable(&self, q: Seq<RetryableView>, k: int) -> bool {
        &&& 0 <= k < q.len()
        &&& self.queueable(q[k])
        &&& forall|j: int| 0 <= j < k ==> !self.queueable(#[trigger] q[j])
    }

    /// Retry the queued removes of this channel's own TLCs, in queue order,
    /// as remove commands. While an ack is awaited each fails with
    /// `WaitingTlcAck` and nothing changes. Otherwise those tried before the
    /// first that can be queued fail for good and leave the queue; the first
    /// that can be queued is queued (we then wait for the ack) and leaves
    /// the queue; every later one meets `WaitingTlcAck` and stays. Relay
    /// removes are left for the caller. Returns how many removes were queued.
    pub fn retry_local_removes(&mut self) -> (r: usize)
        requires
            old(self).wf(),
        ensures
            final(self).wf(),
            forall|x: RetryableView| #[trigger] final(self).tlc_state.retry_queue().contains(x)
                ==> old(self).tlc_state.retry_queue().contains(x),
            forall|x: RetryableView|
                x is RelayRemoveTlc && #[trigger] old(self).tlc_state.retry_queue().contains(x)
                    ==> final(self).tlc_state.retry_queue().contains(x),
            final(self).to_local_amount == old(self).to_local_amount,
            final(self).to_remote_amount == old(self).to_remote_amount,
            final(self).commitment_numbers == old(self).commitment_numbers,
            old(self).tlc_state.spec_waiting_ack() ==> r == 0 && *final(self) == *old(self),
            ({
                let q = old(self).tlc_state.retry_queue();
                &&& (!old(self).tlc_state.spec_waiting_ack() && forall|j: int| 0 <= j < q.len() ==> !old(self).queueable(#[trigger] q[j])) ==> {
                    &&& r == 0
                    &&& final(self).tlc_state.local() == old(self).tlc_state.local()
                    &&& !final(self).tlc_state.spec_waiting_ack()
                    &&& forall|x: RetryableView| x is RemoveTlc ==> !#[trigger] final(self).tlc_state.retry_queue().contains(x)
                }
                &&& forall|k: int| !old(self).tlc_state.spec_waiting_ack() && #[trigger] old(self).first_queueable(q, k) ==> {
                    &&& r == 1
                    &&& final(self).tlc_state.local().ops() == old(self).tlc_state.local().ops().push(old(self).retry_op(q[k]))
                    &&& final(self).tlc_state.spec_waiting_ack()
                    &&& forall|x: RetryableView| x is RemoveTlc ==> (#[trigger] final(self).tlc_state.retry_queue().contains(x)
                        <==> (q.contains(x) && forall|j: int| 0 <= j <= k ==> q[j] != x))
                }
            }),
    {
        let entries = self.tlc_state.get_pending_remove();
        let ghost q = self.tlc_state.retry_queue();
        let ghost st = *self;
        let mut queued: usize = 0;
        let mut i: usize = 0;
        while i < entries.len()
            invariant
                self.wf(),
                queued <= i,
                i <= entries@.len(),
                q == crate::ledger::retry_views(entries@),
                q == st.tlc_state.retry_queue(),
                st == *old(self),
                forall|x: RetryableView| #[trigger] self.tlc_state.retry_queue().contains(x) ==> q.contains(x),
                forall|x: RetryableView|
                    x is RelayRemoveTlc && #[trigger] q.contains(x) ==> self.tlc_state.retry_queue().contains(x),
                self.to_local_amount == st.to_local_amount,
                self.to_remote_amount == st.to_remote_amount,
                self.commitment_numbers == st.commitment_numbers,
                st.tlc_state.spec_waiting_ack() ==> queued == 0 && *self == st,
                !st.tlc_state.spec_waiting_ack() && (forall|j: int| 0 <= j < i ==> !st.queueable(#[trigger] q[j])) ==> {
                    &&& queued == 0
                    &&& self.tlc_state.local() == st.tlc_state.local()
                    &&& self.tlc_state.remote() == st.tlc_state.remote()
                    &&& self.tlc_state.resolved() == st.tlc_state.resolved()
                    &&& self.tlc_state.spec_waiting_ack() == st.tlc_state.spec_waiting_ack()
                    &&& self.state == st.state
                    &&& self.id == st.id
                    &&& forall|x: RetryableView| x is RemoveTlc ==> (#[trigger] self.tlc_state.retry_queue().contains(x)
                        <==> (q.contains(x) && forall|j: int| 0 <= j < i ==> q[j] != x))
                },
                forall|k: int| 0 <= k < i && !st.tlc_state.spec_waiting_ack() && #[trigger] st.first_queueable(q, k) ==> {
                    &&& queued == 1
                    &&& self.tlc_state.local().ops() == st.tlc_state.local().ops().push(st.retry_op(q[k]))
                    &&& self.tlc_state.spec_waiting_ack()
                    &&& forall|x: RetryableView| x is RemoveTlc ==> (#[trigger] self.tlc_state.retry_queue().contains(x)
                        <==> (q.contains(x) && forall|j: int| 0 <= j <= k ==> q[j] != x))
                },
            decreases entries@.len() - i,
        {
            let ghost before = *self;
            let ghost e = q[i as int];
            proof {
                assert(e == entries@[i as int]@);
            }
            match &entries[i] {
                RetryableRemoveTlc::RemoveTlc(tlc_id, reason) => {
                    let command = RemoveTlcCommand { id: tlc_id.number(), reason: reason.clone() };
                    let result = self.queue_local_remove(command);
                    let keep = match result {
                        Ok(()) => {
                            queued = queued + 1;
                            false
                        },
                        Err(ProcessingChannelError::WaitingTlcAck) => true,
                        Err(_) => false,
                    };
                    if !keep {
                        let ghost bq = self.tlc_state.retry_queue();
                        proof {
                            lemma_drop_entry_contains(bq, e);
                        }
                        self.tlc_state.remove_pending_remove_tlc(&entries[i]);
                    }
                },
                RetryableRemoveTlc::RelayRemoveTlc(..) => {},
            }
            proof {
                if !st.tlc_state.spec_waiting_ack() {
                    if forall|j: int| 0 <= j < i ==> !st.queueable(#[trigger] q[j]) {
                        assert(before.queueable(e) == st.queueable(e));
                        if st.queueable(e) {
                            assert(st.first_queueable(q, i as int));
                        }
                    } else {
                        let j0 = choose|j: int| 0 <= j < i && st.queueable(#[trigger] q[j]);
                        assert(!st.first_queueable(q, i as int)) by {
                            assert(st.queueable(q[j0]));
                        }
                    }
                }
            }
            i = i + 1;
        }
        queued
    }

    /// Settle a relayed remove from its outcome upstream: it stays queued
    /// only when the upstream channel was waiting for an ack.
    pub fn settle_relay_remove(&mut self, entry: &RetryableRemoveTlc, upstream_waiting_ack: bool)
        ensures
            upstream_waiting_ack ==> *final(self) == *old(self),
            !upstream_waiting_ack ==> final(self).tlc_state.retry_queue() == drop_entry(
                old(self).tlc_state.retry_queue(),
                entry@,
            ),
            final(self).tlc_state.local() == old(self).tlc_state.local(),
            final(self).tlc_state.remote() == old(self).tlc_state.remote(),
            final(self).to_local_amount == old(self).to_local_amount,
            final(self).to_remote_amount == old(self).to_remote_amount,
            final(self).commitment_numbers == old(self).commitment_numbers,
    {
        if !upstream_waiting_ack {
            self.tlc_state.remove_pending_remove_tlc(entry);
        }
    }

    /// The TLCs to offer again after a reconnect in step at local
    /// commitment number `from`: our live offered TLCs (the first live add
    /// of each id, ours first) created at or after `from`, in order.
    pub fn get_tlcs_to_resend(&self, from: u64) -> (r: Vec<AddTlcInfo>)
        ensures
            crate::ledger::as_adds(r@) == crate::ledger::first_live_adds(self.tlc_state.all_ops()).filter(
                |op: TlcKindView| op.tlc_id() is Offered && op->AddTlc_0.created_at.local >= from,
            ),
    {
        let all = self.tlc_state.all_tlcs();
        let ghost src = crate::ledger::as_adds(all@);
        let ghost keep = |op: TlcKindView| op.tlc_id() is Offered && op->AddTlc_0.created_at.local >= from;
        let mut out: Vec<AddTlcInfo> = Vec::new();
        let mut i: usize = 0;
        proof {
            assert(src.subrange(0, 0) =~= Seq::<TlcKindView>::empty());
            assert(crate::ledger::as_adds(out@) =~= src.subrange(0, 0).filter(keep));
        }
        while i < all.len()
            invariant
                i <= all@.len(),
                src == crate::ledger::as_adds(all@),
                keep == (|op: TlcKindView| op.tlc_id() is Offered && op->AddTlc_0.created_at.local >= from),
                crate::ledger::as_adds(out@) == src.subrange(0, i as int).filter(keep),
            decreases all@.len() - i,
        {
            proof {
                assert(src.subrange(0, i + 1) =~= src.subrange(0, i as int).push(src[i as int]));
                src.subrange(0, i as int).lemma_filter_push(src[i as int], keep);
            }
            if all[i].is_offered() && all[i].created_at.local >= from {
                let c = all[i].clone();
                proof {
                    assert(crate::ledger::as_adds(out@.push(c)) =~= crate::ledger::as_adds(out@).push(
                        TlcKindView::AddTlc(c@),
                    ));
                }
                out.push(c);
            }
            i = i + 1;
        }
        proof {
            assert(src.subrange(0, src.len() as int) =~= src);
        }
        out
    }

    /// The resolutions to send again after a reconnect in step at local
    /// commitment number `from`: those of TLCs the peer offered, made at or
    /// after `from`, in the order they were made.
    pub fn get_removes_to_resend(&self, from: u64) -> (r: Vec<(TLCId, RemoveTlcReason)>)
        ensures
            r@.map_values(|e: (TLCId, RemoveTlcReason)| (e.0, e.1@)) == self.tlc_state.resolved().filter(
                |e: (TLCId, CommitmentNumbers, RemoveReasonView)| e.0 is Received && e.1.local >= from,
            ).map_values(|e: (TLCId, CommitmentNumbers, RemoveReasonView)| (e.0, e.2)),
    {
        let all = self.tlc_state.resolved_entries();
        let ghost src = self.tlc_state.resolved();
        let ghost keep = |e: (TLCId, CommitmentNumbers, RemoveReasonView)| e.0 is Received && e.1.local >= from;
        let ghost pick = |e: (TLCId, CommitmentNumbers, RemoveReasonView)| (e.0, e.2);
        let ghost vw = |e: (TLCId, RemoveTlcReason)| (e.0, e.1@);
        let mut out: Vec<(TLCId, RemoveTlcReason)> = Vec::new();
        let mut i: usize = 0;
        proof {
            assert(out@.map_values(vw) =~= src.subrange(0, 0).filter(keep).map_values(pick));
        }
        while i < all.len()
            invariant
                i <= all@.len(),
                src == crate::ledger::resolved_views(all@),
                keep == (|e: (TLCId, CommitmentNumbers, RemoveReasonView)| e.0 is Received && e.1.local >= from),
                pick == (|e: (TLCId, CommitmentNumbers, RemoveReasonView)| (e.0, e.2)),
                vw == (|e: (TLCId, RemoveTlcReason)| (e.0, e.1@)),
                out@.map_values(vw) == src.subrange(0, i as int).filter(keep).map_values(pick),
            decreases all@.len() - i,
        {
            proof {
                assert(src.subrange(0, i + 1) =~= src.subrange(0, i as int).push(src[i as int]));
                src.subrange(0, i as int).lemma_filter_push(src[i as int], keep);
            }
            let e = &all[i];
            if e.0.is_received() && e.1.local >= from {
                let c = (e.0, e.2.clone());
                proof {
                    assert(out@.push(c).map_values(vw) =~= out@.map_values(vw).push(vw(c)));
                    assert(src.subrange(0, i as int).filter(keep).push(src[i as int]).map_values(pick)
                        =~= src.subrange(0, i as int).filter(keep).map_values(pick).push(pick(src[i as int])));
                }
                out.push(c);
            }
            i = i + 1;
        }
        proof {
            assert(src.subrange(0, src.len() as int) =~= src);
        }
        out
    }

    /// What to send again after a reconnect in step at local commitment
    /// number `from`: our offered adds and our resolutions of the peer's
    /// TLCs made at or after it, and whether a `CommitmentSigned` follows
    /// (exactly when anything is resent).
    pub fn reestablish_resend_plan(&self, from: u64) -> (r: (Vec<AddTlcInfo>, Vec<(TLCId, RemoveTlcReason)>, bool))
        ensures
            crate::ledger::as_adds(r.0@) == crate::ledger::first_live_adds(self.tlc_state.all_ops()).filter(
                |op: TlcKindView| op.tlc_id() is Offered && op->AddTlc_0.created_at.local >= from,
            ),
            r.1@.map_values(|e: (TLCId, RemoveTlcReason)| (e.0, e.1@)) == self.tlc_state.resolved().filter(
                |e: (TLCId, CommitmentNumbers, RemoveReasonView)| e.0 is Received && e.1.local >= from,
            ).map_values(|e: (TLCId, CommitmentNumbers, RemoveReasonView)| (e.0, e.2)),
            r.2 == (r.0@.len() > 0 || r.1@.len() > 0),
    {
        let adds = self.get_tlcs_to_resend(from);
        let removes = self.get_removes_to_resend(from);
        let resend = adds.len() > 0 || removes.len() > 0;
        (adds, removes, resend)
    }

    /// The serialised revocation output and its data: the whole funding
    /// capacity less the commitment fee, paid to `lock`, with the token
    /// type script and both balances as data when the channel holds a
    /// token. `None` when the fee exceeds the capacity, the rest does not
    /// fit a capacity, or a script does not decode.
    pub open spec fn spec_revocation_output(&self, commitment_tx_fee: u64, lock: Seq<u8>) -> Option<Seq<u8>> {
        if commitment_tx_fee > self.total_capacity() || self.total_capacity() - commitment_tx_fee > u64::MAX {
            None
        } else {
            crate::cells::spec_output_with_data(
                (self.total_capacity() - commitment_tx_fee) as u64,
                lock,
                crate::cells::opt_seq(self.funding_udt_type_script),
                (self.to_local_amount + self.to_remote_amount) as u128,
            )
        }
    }

    /// Build the revocation output (see `spec_revocation_output`).
    pub fn build_revocation_output(&self, commitment_tx_fee: u64, lock: &[u8]) -> (r: Option<Vec<u8>>)
        requires
            self.wf(),
        ensures
            crate::cells::opt_seq(r) == self.spec_revocation_output(commitment_tx_fee, lock@),
    {
        let capacity = match self.revocation_output_capacity(commitment_tx_fee) {
            Some(c) => c,
            None => {
                return None;
            },
        };
        if capacity > u64::MAX as u128 {
            return None;
        }
        crate::cells::output_with_data(
            capacity as u64,
            lock,
            &self.funding_udt_type_script,
            self.to_local_amount + self.to_remote_amount,
        )
    }

    /// Our musig2 public nonce for the current local commitment number.
    pub open spec fn spec_local_nonce(&self) -> Option<Seq<u8>> {
        match self.spec_nonce_seed(self.commitment_numbers.local) {
            Some(seed) => musig2_public_nonce(seed, self.signer.funding_key@),
            None => None,
        }
    }

    /// The two aggregated signatures a `RevokeAndAck` completes (revocation,
    /// then settlement), from the peer's partials: the revocation covers the
    /// revocation output paying everything but the commitment fee to our
    /// shutdown script, the settlement the serialised settlement outputs;
    /// keys ours first, nonces the peer's (kept from our
    /// `CommitmentSigned`) first; the revocation covers the previous local
    /// commitment number, the settlement the current one. `None` when a
    /// nonce or key is missing, there is no previous commitment, or a
    /// signature does not verify or aggregate.
    pub open spec fn spec_raa_signatures(
        &self,
        revocation_partial: Seq<u8>,
        commitment_partial: Seq<u8>,
        commitment_tx_fee: u64,
        settlement_outputs: Seq<u8>,
    ) -> Option<(Seq<u8>, Seq<u8>)> {
        let l = self.local_channel_public_keys.funding_pubkey@;
        let m = self.remote_channel_public_keys.unwrap().funding_pubkey@;
        let n = self.commitment_numbers.local;
        match (self.last_used_nonce_in_commitment_signed, self.spec_local_nonce(), self.spec_nonce_seed(n),
            musig2_agg_xonly(l, m), self.spec_revocation_output(commitment_tx_fee, self.local_shutdown_script@)) {
            (Some(rn), Some(ln), Some(seed), Some(x), Some(revocation_output)) => if n == 0 {
                None
            } else {
                let rev = co_sign(l, m, rn@, ln, m, rn@, self.signer.funding_key@, seed, revocation_partial,
                    lock_message(revocation_output, x, self.commitment_delay_epoch, (n - 1) as u64));
                let set = co_sign(l, m, rn@, ln, m, rn@, self.signer.funding_key@, seed, commitment_partial,
                    lock_message(settlement_outputs, x, self.commitment_delay_epoch, n));
                match (rev, set) {
                    (Some(a), Some(b)) => Some((a, b)),
                    _ => None,
                }
            },
            _ => None,
        }
    }

    /// Handle the peer's `RevokeAndAck`: complete the revocation and
    /// settlement signatures (see `spec_raa_signatures`); on success drop the
    /// kept nonce and apply the ledger step of `apply_revoke_and_ack`. Any
    /// failure is a `Musig2VerifyError` and changes nothing.
    pub fn handle_revoke_and_ack(
        &mut self,
        revocation_partial_signature: [u8; 32],
        commitment_tx_partial_signature: [u8; 32],
        next_per_commitment_point: Pubkey,
        commitment_tx_fee: u64,
        settlement_outputs: &[u8],
    ) -> (r: Result<([u8; 64], [u8; 64]), ProcessingChannelError>)
        requires
            old(self).wf(),
            old(self).remote_channel_public_keys is Some,
            old(self).commitment_numbers.local < u64::MAX,
        ensures
            final(self).wf(),
            r is Err ==> *final(self) == *old(self) && r->Err_0 is Musig2VerifyError,
            r is Ok <==> old(self).spec_raa_signatures(
                revocation_partial_signature@,
                commitment_tx_partial_signature@,
                commitment_tx_fee,
                settlement_outputs@,
            ) is Some,
            r is Ok ==> {
                &&& Some((r->Ok_0.0@, r->Ok_0.1@)) == old(self).spec_raa_signatures(
                    revocation_partial_signature@,
                    commitment_tx_partial_signature@,
                    commitment_tx_fee,
                    settlement_outputs@,
                )
                &&& final(self).last_used_nonce_in_commitment_signed is None
                &&& final(self).commitment_numbers.local == old(self).commitment_numbers.local + 1
                &&& final(self).commitment_numbers.remote == old(self).commitment_numbers.remote
                &&& final(self).ledger() == replay_removes(
                    LedgerView {
                        local: merge_ops(old(self).tlc_state.local().ops(), old(self).tlc_state.remote().committed_ops()),
                        ..old(self).ledger()
                    },
                    old(self).tlc_state.local().staging_ops(),
                    final(self).commitment_numbers,
                )
                &&& !final(self).tlc_state.spec_waiting_ack()
            },
    {
        let fail = ProcessingChannelError::Musig2VerifyError("revoke and ack".to_string());
        let remote = self.remote_channel_public_keys.unwrap();
        let l = self.local_channel_public_keys.funding_pubkey;
        let m = remote.funding_pubkey;
        let n = self.get_local_commitment_number();
        let rn = match self.last_used_nonce_in_commitment_signed {
            Some(x) => x,
            None => {
                return Err(fail);
            },
        };
        let ln = match self.get_local_nonce() {
            Some(x) => x,
            None => {
                return Err(fail);
            },
        };
        let seed = match self.signer.derive_musig2_nonce(n) {
            Some(x) => x,
            None => {
                return Err(fail);
            },
        };
        let x = match aggregated_xonly_pubkey(&l, &m) {
            Some(x) => x,
            None => {
                return Err(fail);
            },
        };
        let revocation_output = match self.build_revocation_output(commitment_tx_fee, self.local_shutdown_script.as_slice()) {
            Some(o) => o,
            None => {
                return Err(fail);
            },
        };
        if n == 0 {
            return Err(fail);
        }
        let verify = Musig2VerifyContext { keys: [l, m], nonces: [rn, ln], pubkey: m, pubnonce: rn };
        let sign = Musig2SignContext { keys: [l, m], nonces: [rn, ln], seckey: self.signer.funding_key, nonce_seed: seed };
        let rev_msg = build_lock_message(revocation_output.as_slice(), &x, self.commitment_delay_epoch, n - 1);
        let set_msg = build_lock_message(settlement_outputs, &x, self.commitment_delay_epoch, n);
        let rev = match co_sign_exec(&verify, &sign, &revocation_partial_signature, rev_msg.as_slice()) {
            Some(sig) => sig,
            None => {
                return Err(fail);
            },
        };
        let set = match co_sign_exec(&verify, &sign, &commitment_tx_partial_signature, set_msg.as_slice()) {
            Some(sig) => sig,
            None => {
                return Err(fail);
            },
        };
        proof {
            assert(verify.keys[0] == l && verify.keys[1] == m && verify.nonces[0] == rn && verify.nonces[1] == ln);
        }
        self.last_used_nonce_in_commitment_signed = None;
        self.apply_revoke_and_ack(next_per_commitment_point);
        Ok((rev, set))
    }

    /// What a `CommitmentSigned` from the peer yields: both of its partial
    /// signatures must verify in musig2 party order with our current nonce
    /// and the peer's nonce for the current remote number (the funding one
    /// over `commitment_tx_hash`, the commitment one over the settlement
    /// message of our commitment, from `settlement_outputs` at the remote
    /// number); then our `RevokeAndAck` partials (revocation over the
    /// revocation output paying everything but `commitment_tx_fee` to the
    /// peer's shutdown script, at the previous remote number, commitment over
    /// `raa_settlement_outputs` at the current one), signed with keys the
    /// peer's first and nonces ours first. `None` when anything is missing,
    /// there is no previous remote commitment, or a step fails.
    pub open spec fn spec_commitment_signed(
        &self,
        funding_partial: Seq<u8>,
        commitment_partial: Seq<u8>,
        commitment_tx_hash: Seq<u8>,
        settlement_outputs: Seq<u8>,
        commitment_tx_fee: u64,
        raa_settlement_outputs: Seq<u8>,
    ) -> Option<(Seq<u8>, Seq<u8>)> {
        let l = self.local_channel_public_keys.funding_pubkey@;
        let m = self.remote_channel_public_keys.unwrap().funding_pubkey@;
        let n = self.commitment_numbers.remote;
        let raa_revocation_output = match opt_bytes(self.remote_shutdown_script) {
            Some(lock) => self.spec_revocation_output(commitment_tx_fee, lock),
            None => None,
        };
        match (self.spec_local_nonce(), last_nonce(self.remote_nonces@, n),
            self.spec_nonce_seed(self.commitment_numbers.local), musig2_agg_xonly(m, l), raa_revocation_output) {
            (Some(ln), Some(rn), Some(seed), Some(x), Some(raa_revocation_output)) => if n == 0 {
                None
            } else {
                let (k0, k1) = if self.local_first() { (l, m) } else { (m, l) };
                let (n0, n1) = if self.local_first() { (ln, rn@) } else { (rn@, ln) };
                let valid = musig2_partial_valid(k0, k1, n0, n1, m, rn@, funding_partial, commitment_tx_hash)
                    && musig2_partial_valid(k0, k1, n0, n1, m, rn@, commitment_partial,
                    lock_message(settlement_outputs, x, self.commitment_delay_epoch, n));
                let rev = musig2_partial_signature(m, l, self.signer.funding_key@, seed, ln, rn@,
                    lock_message(raa_revocation_output, x, self.commitment_delay_epoch, (n - 1) as u64));
                let com = musig2_partial_signature(m, l, self.signer.funding_key@, seed, ln, rn@,
                    lock_message(raa_settlement_outputs, x, self.commitment_delay_epoch, n));
                if valid && rev is Some && com is Some {
                    Some((rev.unwrap(), com.unwrap()))
                } else {
                    None
                }
            },
            _ => None,
        }
    }

    /// Handle the peer's `CommitmentSigned`: check the state, verify it and
    /// sign our `RevokeAndAck` (see `spec_commitment_signed`), whose partial
    /// signatures are returned (revocation, then commitment); then apply the
    /// ledger step of `apply_commitment_signed`. On error nothing changes.
    pub fn verify_commitment_signed(
        &mut self,
        funding_tx_partial_signature: [u8; 32],
        commitment_tx_partial_signature: [u8; 32],
        next_local_nonce: PubNonceBytes,
        commitment_tx_hash: &[u8; 32],
        settlement_outputs: &[u8],
        commitment_tx_fee: u64,
        raa_settlement_outputs: &[u8],
    ) -> (r: Result<([u8; 32], [u8; 32]), ProcessingChannelError>)
        requires
            old(self).wf(),
            old(self).remote_channel_public_keys is Some,
            old(self).commitment_numbers.remote < u64::MAX - 1,
        ensures
            final(self).wf(),
            r is Err ==> *final(self) == *old(self),
            !admits_commitment_signed(old(self).state) ==> r is Err && r->Err_0 is InvalidState,
            r is Ok <==> (admits_commitment_signed(old(self).state) && old(self).spec_commitment_signed(
                funding_tx_partial_signature@,
                commitment_tx_partial_signature@,
                commitment_tx_hash@,
                settlement_outputs@,
                commitment_tx_fee,
                raa_settlement_outputs@,
            ) is Some),
            r is Ok ==> {
                &&& Some((r->Ok_0.0@, r->Ok_0.1@)) == old(self).spec_commitment_signed(
                    funding_tx_partial_signature@,
                    commitment_tx_partial_signature@,
                    commitment_tx_hash@,
                    settlement_outputs@,
                    commitment_tx_fee,
                    raa_settlement_outputs@,
                )
                &&& final(self).commitment_numbers.remote == old(self).commitment_numbers.remote + 1
                &&& final(self).commitment_numbers.local == old(self).commitment_numbers.local
                &&& final(self).tlc_state.remote().ops() == merge_ops(
                    old(self).tlc_state.remote().ops(),
                    old(self).tlc_state.local().committed_ops(),
                )
                &&& final(self).tlc_state.local() == old(self).tlc_state.local()
                &&& final(self).to_local_amount == old(self).to_local_amount
                &&& final(self).to_remote_amount == old(self).to_remote_amount
            },
    {
        if !check_commitment_signed_state(self.state) {
            return Err(ProcessingChannelError::InvalidState("cannot take CommitmentSigned now".to_string()));
        }
        let fail = ProcessingChannelError::Musig2VerifyError("commitment signed".to_string());
        let remote = self.remote_channel_public_keys.unwrap();
        let l = self.local_channel_public_keys.funding_pubkey;
        let m = remote.funding_pubkey;
        let n = self.get_remote_commitment_number();
        let ln = match self.get_local_nonce() {
            Some(x) => x,
            None => {
                return Err(fail);
            },
        };
        let rn = match self.get_remote_nonce() {
            Some(x) => x,
            None => {
                return Err(fail);
            },
        };
        let seed = match self.signer.derive_musig2_nonce(self.get_local_commitment_number()) {
            Some(x) => x,
            None => {
                return Err(fail);
            },
        };
        let x = match aggregated_xonly_pubkey(&m, &l) {
            Some(x) => x,
            None => {
                return Err(fail);
            },
        };
        let raa_revocation_output = match &self.remote_shutdown_script {
            Some(lock) => match self.build_revocation_output(commitment_tx_fee, lock.as_slice()) {
                Some(o) => o,
                None => {
                    return Err(fail);
                },
            },
            None => {
                return Err(fail);
            },
        };
        if n == 0 {
            return Err(fail);
        }
        let keys = self.order_things_for_musig2(l, m);
        let nonces = self.order_things_for_musig2(ln, rn);
        let verify = Musig2VerifyContext { keys, nonces, pubkey: m, pubnonce: rn };
        match verify.verify(&funding_tx_partial_signature, commitment_tx_hash.as_slice()) {
            Ok(()) => {},
            Err(e) => {
                return Err(e);
            },
        }
        let set_msg = build_lock_message(settlement_outputs, &x, self.commitment_delay_epoch, n);
        match verify.verify(&commitment_tx_partial_signature, set_msg.as_slice()) {
            Ok(()) => {},
            Err(e) => {
                return Err(e);
            },
        }
        let sign = Musig2SignContext { keys: [m, l], nonces: [ln, rn], seckey: self.signer.funding_key, nonce_seed: seed };
        let rev_msg = build_lock_message(raa_revocation_output.as_slice(), &x, self.commitment_delay_epoch, n - 1);
        let com_msg = build_lock_message(raa_settlement_outputs, &x, self.commitment_delay_epoch, n);
        let rev = match sign.sign(rev_msg.as_slice()) {
            Ok(sig) => sig,
            Err(e) => {
                return Err(e);
            },
        };
        let com = match sign.sign(com_msg.as_slice()) {
            Ok(sig) => sig,
            Err(e) => {
                return Err(e);
            },
        };
        proof {
            assert(keys[0] == keys@[0] && keys[1] == keys@[1]);
            assert(nonces[0] == nonces@[0] && nonces[1] == nonces@[1]);
        }
        self.apply_commitment_signed(next_local_nonce);
        Ok((rev, com))
    }

    /// Whether a peer message is processed: while reestablishing only a
    /// `ReestablishChannel` is.
    pub fn accepts_peer_message(&self, is_reestablish: bool) -> (r: bool)
        ensures
            r == (!self.reestablishing || is_reestablish),
    {
        !self.reestablishing || is_reestablish
    }

    /// Both funding keys and both current nonces, in musig2 party order,
    /// and our nonce seed; `None` when a nonce or the seed is missing.
    pub open spec fn spec_session(&self) -> Option<(Seq<u8>, Seq<u8>, Seq<u8>, Seq<u8>, Seq<u8>, Seq<u8>)> {
        let l = self.local_channel_public_keys.funding_pubkey@;
        let m = self.remote_channel_public_keys.unwrap().funding_pubkey@;
        match (self.spec_local_nonce(), last_nonce(self.remote_nonces@, self.commitment_numbers.remote),
            self.spec_nonce_seed(self.commitment_numbers.local)) {
            (Some(ln), Some(rn), Some(seed)) => if self.local_first() {
                Some((l, m, ln, rn@, rn@, seed))
            } else {
                Some((m, l, rn@, ln, rn@, seed))
            },
            _ => None,
        }
    }

    /// Sign the cooperative shutdown transaction (its hash) once both
    /// shutdown proposals are recorded: our partial signature is made in
    /// the current session (party order) unless already made, and kept.
    /// When the peer's partial is recorded too, the two (ours first) are
    /// aggregated, returned, and the channel is closed cooperatively.
    /// Without both proposals it is an `InvalidState`; a failed signing or
    /// aggregation is a `Musig2SigningError` / `Musig2VerifyError`. On error
    /// nothing changes.
    pub fn sign_shutdown(&mut self, shutdown_tx_hash: &[u8; 32]) -> (r: Result<Option<[u8; 64]>, ProcessingChannelError>)
        requires
            old(self).wf(),
            old(self).remote_channel_public_keys is Some,
        ensures
            final(self).wf(),
            r is Err ==> *final(self) == *old(self),
            (old(self).local_shutdown_info is None || old(self).remote_shutdown_info is None) ==> r is Err
                && r->Err_0 is InvalidState,
            r is Ok ==> {
                let ours = final(self).local_shutdown_info.unwrap().signature;
                &&& final(self).local_shutdown_info is Some && ours is Some
                &&& old(self).local_shutdown_info.unwrap().signature is Some ==> ours == old(self).local_shutdown_info.unwrap().signature
                &&& old(self).local_shutdown_info.unwrap().signature is None ==> match old(self).spec_session() {
                    Some((k0, k1, n0, n1, _rn, seed)) => Some(ours.unwrap()@) == musig2_partial_signature(
                        k0, k1, old(self).signer.funding_key@, seed, n0, n1, shutdown_tx_hash@),
                    None => false,
                }
                &&& final(self).local_shutdown_info.unwrap().close_script@ == old(self).local_shutdown_info.unwrap().close_script@
                &&& final(self).local_shutdown_info.unwrap().fee_rate == old(self).local_shutdown_info.unwrap().fee_rate
                &&& (r->Ok_0 is Some) == (old(self).remote_shutdown_info.unwrap().signature is Some)
                &&& r->Ok_0 is Some ==> {
                    &&& final(self).state == ChannelState::Closed(COOPERATIVE)
                    &&& match old(self).spec_session() {
                        Some((k0, k1, n0, n1, _rn, _seed)) => Some(r->Ok_0.unwrap()@) == musig2_aggregate(
                            k0, k1, n0, n1, ours.unwrap()@, old(self).remote_shutdown_info.unwrap().signature.unwrap()@,
                            shutdown_tx_hash@),
                        None => false,
                    }
                }
                &&& r->Ok_0 is None ==> final(self).state == old(self).state
                &&& final(self).ledger() == old(self).ledger()
                &&& final(self).commitment_numbers == old(self).commitment_numbers
            },
    {
        let (our_signature, remote_signature) = match (&self.local_shutdown_info, &self.remote_shutdown_info) {
            (Some(ours), Some(theirs)) => (ours.signature, theirs.signature),
            _ => {
                return Err(ProcessingChannelError::InvalidState("both shutdown proposals are needed".to_string()));
            },
        };
        let remote = self.remote_channel_public_keys.unwrap();
        let l = self.local_channel_public_keys.funding_pubkey;
        let m = remote.funding_pubkey;
        let fail = ProcessingChannelError::Musig2SigningError("shutdown".to_string());
        let ln = match self.get_local_nonce() {
            Some(x) => x,
            None => {
                return Err(fail);
            },
        };
        let rn = match self.get_remote_nonce() {
            Some(x) => x,
            None => {
                return Err(fail);
            },
        };
        let seed = match self.signer.derive_musig2_nonce(self.get_local_commitment_number()) {
            Some(x) => x,
            None => {
                return Err(fail);
            },
        };
        let keys = self.order_things_for_musig2(l, m);
        let nonces = self.order_things_for_musig2(ln, rn);
        proof {
            assert(keys[0] == keys@[0] && keys[1] == keys@[1]);
            assert(nonces[0] == nonces@[0] && nonces[1] == nonces@[1]);
        }
        let ours = match our_signature {
            Some(sig) => sig,
            None => {
                let sign = Musig2SignContext { keys, nonces, seckey: self.signer.funding_key, nonce_seed: seed };
                match sign.sign(shutdown_tx_hash.as_slice()) {
                    Ok(sig) => sig,
                    Err(e) => {
                        return Err(e);
                    },
                }
            },
        };
        let aggregated = match remote_signature {
            Some(theirs) => {
                let verify = Musig2VerifyContext { keys, nonces, pubkey: m, pubnonce: rn };
                match verify.aggregate_partial_signatures_for_msg([ours, theirs], shutdown_tx_hash.as_slice()) {
                    Ok(sig) => Some(sig),
                    Err(e) => {
                        return Err(e);
                    },
                }
            },
            None => None,
        };
        let mut info = match self.local_shutdown_info.take() {
            Some(info) => info,
            None => {
                return Err(ProcessingChannelError::InvalidState("both shutdown proposals are needed".to_string()));
            },
        };
        info.signature = Some(ours);
        self.local_shutdown_info = Some(info);
        if aggregated.is_some() {
            self.state = ChannelState::Closed(COOPERATIVE);
        }
        Ok(aggregated)
    }

    /// The ledger part of a verified `CommitmentSigned` from the peer:
    /// keep its next nonce, commit the peer's staging operations (returned),
    /// and advance the remote commitment number as our `RevokeAndAck` goes out.
    pub fn apply_commitment_signed(&mut self, next_local_nonce: PubNonceBytes) -> (r: Vec<TlcKind>)
        requires
            old(self).wf(),
            old(self).commitment_numbers.remote < u64::MAX - 1,
        ensures
            final(self).wf(),
            views(r@) == old(self).tlc_state.remote().staging_ops(),
            final(self).commitment_numbers.remote == old(self).commitment_numbers.remote + 1,
            final(self).commitment_numbers.local == old(self).commitment_numbers.local,
            final(self).tlc_state.remote().committed_len() == final(self).tlc_state.remote().ops().len(),
            final(self).tlc_state.remote().ops() == merge_ops(
                old(self).tlc_state.remote().ops(),
                old(self).tlc_state.local().committed_ops(),
            ),
            final(self).tlc_state.remote().next_id() == old(self).tlc_state.remote().next_id(),
            final(self).tlc_state.local() == old(self).tlc_state.local(),
            final(self).tlc_state.resolved() == old(self).tlc_state.resolved(),
            final(self).tlc_state.spec_waiting_ack() == old(self).tlc_state.spec_waiting_ack(),
            final(self).to_local_amount == old(self).to_local_amount,
            final(self).to_remote_amount == old(self).to_remote_amount,
            ({
                let number: u64 = if old(self).remote_nonces@.len() == 0 {
                    0
                } else {
                    (old(self).commitment_numbers.remote + 1) as u64
                };
                let pushed = old(self).remote_nonces@.push((number, next_local_nonce));
                &&& pushed.len() > 2 ==> final(self).remote_nonces@ == pushed.subrange(1, pushed.len() as int)
                &&& pushed.len() <= 2 ==> final(self).remote_nonces@ == pushed
            }),
    {
        self.save_remote_nonce(next_local_nonce);
        proof {
            let on = self.tlc_state.local().next_id();
            let rn = self.tlc_state.remote().next_id();
            lemma_below_committed(self.tlc_state.local().ops(), self.tlc_state.local().committed_len() as int, on, rn);
            lemma_below_merge(self.tlc_state.remote().ops(), self.tlc_state.local().committed_ops(), on, rn);
        }
        let staged = self.tlc_state.commit_remote_tlcs();
        self.increment_remote_commitment_number();
        staged
    }

    /// The ledger part of a verified `RevokeAndAck` from the peer: advance
    /// the local commitment number, keep the peer's next point (as
    /// `append_remote_commitment_point` does), commit our staging operations
    /// over the peer's committed ones, apply each remove among them at the
    /// new numbers (fulfills move balances; one that no longer applies
    /// changes nothing and is counted in the result), and stop waiting for
    /// the ack.
    pub fn apply_revoke_and_ack(&mut self, next_per_commitment_point: Pubkey) -> (r: usize)
        requires
            old(self).wf(),
            old(self).commitment_numbers.local < u64::MAX,
        ensures
            final(self).wf(),
            final(self).commitment_numbers.local == old(self).commitment_numbers.local + 1,
            final(self).commitment_numbers.remote == old(self).commitment_numbers.remote,
            final(self).ledger() == replay_removes(
                LedgerView {
                    local: merge_ops(old(self).tlc_state.local().ops(), old(self).tlc_state.remote().committed_ops()),
                    ..old(self).ledger()
                },
                old(self).tlc_state.local().staging_ops(),
                final(self).commitment_numbers,
            ),
            final(self).to_local_amount + final(self).to_remote_amount == old(self).to_local_amount
                + old(self).to_remote_amount,
            ({
                let pushed = old(self).remote_commitment_points@.push(
                    ((old(self).commitment_numbers.local + 1) as u64, next_per_commitment_point),
                );
                let least = match min_live_created_remote(old(self).tlc_state.all_ops()) {
                    Some(m) => m,
                    None => 0,
                };
                &&& pushed.len() > old(self).local_constraints.max_tlc_number_in_flight + 1
                    ==> final(self).remote_commitment_points@ == points_from(pushed, least)
                &&& pushed.len() <= old(self).local_constraints.max_tlc_number_in_flight + 1
                    ==> final(self).remote_commitment_points@ == pushed
            }),
            !final(self).tlc_state.spec_waiting_ack(),
            final(self).tlc_state.retry_queue() == old(self).tlc_state.retry_queue(),
            final(self).state == old(self).state,
            final(self).last_used_nonce_in_commitment_signed == old(self).last_used_nonce_in_commitment_signed,
    {
        self.increment_local_commitment_number();
        self.append_remote_commitment_point(next_per_commitment_point);
        proof {
            let on = self.tlc_state.local().next_id();
            let rn = self.tlc_state.remote().next_id();
            lemma_below_committed(self.tlc_state.remote().ops(), self.tlc_state.remote().committed_len() as int, on, rn);
            lemma_below_merge(self.tlc_state.local().ops(), self.tlc_state.remote().committed_ops(), on, rn);
        }
        let staged = self.tlc_state.commit_local_tlcs();
        let ghost numbers = self.commitment_numbers;
        let ghost sum = self.to_local_amount + self.to_remote_amount;
        let ghost start = self.ledger();
        let ghost sv = views(staged@);
        let ghost points = self.remote_commitment_points;
        proof {
            assert(sv.subrange(0, 0) =~= Seq::<TlcKindView>::empty());
        }
        let mut skipped: usize = 0;
        let mut i: usize = 0;
        while i < staged.len()
            invariant
                self.wf(),
                self.commitment_numbers == numbers,
                self.to_local_amount + self.to_remote_amount == sum,
                sv == views(staged@),
                self.ledger() == replay_removes(start, sv.subrange(0, i as int), numbers),
                self.remote_commitment_points == points,
                self.tlc_state.retry_queue() == old(self).tlc_state.retry_queue(),
                self.state == old(self).state,
                self.last_used_nonce_in_commitment_signed == old(self).last_used_nonce_in_commitment_signed,
                skipped <= i,
                i <= staged@.len(),
            decreases staged@.len() - i,
        {
            proof {
                assert(sv.subrange(0, i + 1).drop_last() =~= sv.subrange(0, i as int));
                assert(sv.subrange(0, i + 1).last() == staged@[i as int]@);
            }
            match &staged[i] {
                TlcKind::RemoveTlc(remove) => {
                    match self.remove_tlc_with_reason(remove.tlc_id, &remove.reason) {
                        Ok(_) => {},
                        Err(_) => {
                            skipped = skipped + 1;
                        },
                    }
                },
                _ => {},
            }
            i = i + 1;
        }
        proof {
            assert(sv.subrange(0, sv.len() as int) =~= sv);
        }
        self.tlc_state.set_waiting_ack(false);
        skipped
    }

    /// The two per-commitment TLC keys of a TLC, offerer's first: ours from
    /// our point for its `created_at.remote`, the peer's from its point for
    /// its `created_at.local`; `None` when a point or a key is missing.
    pub fn get_tlc_pubkeys(&self, tlc: &AddTlcInfo) -> (r: Option<(Pubkey, Pubkey)>)
        requires
            self.remote_channel_public_keys is Some,
        ensures
            r is Some ==> {
                let local_point = secp_public_key(
                    commitment_secret(self.signer.commitment_seed@, tlc.created_at.remote),
                );
                let (ours, theirs) = if tlc.tlc_id is Offered {
                    (r.unwrap().0, r.unwrap().1)
                } else {
                    (r.unwrap().1, r.unwrap().0)
                };
                &&& local_point is Some
                &&& Some(ours@) == secp_tweak_public_key(
                    self.local_channel_public_keys.tlc_base_key@,
                    ckb_blake2b_256(local_point.unwrap()),
                )
                &&& exists|i: int|
                    0 <= i < self.remote_commitment_points@.len()
                        && self.remote_commitment_points@[i].0 == tlc.created_at.local && Some(theirs@)
                        == secp_tweak_public_key(
                        self.remote_channel_public_keys.unwrap().tlc_base_key@,
                        ckb_blake2b_256(self.remote_commitment_points@[i].1@),
                    )
            },
    {
        let local_point = match self.signer.get_commitment_point(tlc.created_at.remote) {
            Some(p) => p,
            None => {
                return None;
            },
        };
        let remote_point = match self.get_remote_commitment_point(tlc.created_at.local) {
            Some(p) => p,
            None => {
                return None;
            },
        };
        let remote_keys = self.remote_channel_public_keys.unwrap();
        let local_key = match crate::crypto::derive_tlc_pubkey(&self.local_channel_public_keys.tlc_base_key, &local_point) {
            Some(k) => k,
            None => {
                return None;
            },
        };
        let remote_key = match crate::crypto::derive_tlc_pubkey(&remote_keys.tlc_base_key, &remote_point) {
            Some(k) => k,
            None => {
                return None;
            },
        };
        if tlc.is_offered() {
            Some((local_key, remote_key))
        } else {
            Some((remote_key, local_key))
        }
    }
}

/// Split a funding amount into the channel balance and the native reserve
/// (`reserved_capacity`: the close output's occupied capacity plus the
/// least shutdown fee). With the native currency the reserve comes out of
/// the amount, which must cover it and stay below `u64::MAX`; with a token
/// the whole amount is the balance.
pub fn get_funding_and_reserved_amount(total_amount: u128, reserved_capacity: u64, has_udt: bool) -> (r: Result<
    (u128, u64),
    ProcessingChannelError,
>)
    ensures
        has_udt ==> r == Ok::<(u128, u64), ProcessingChannelError>((total_amount, reserved_capacity)),
        !has_udt && total_amount < reserved_capacity ==> r is Err && r->Err_0 is InvalidParameter,
        !has_udt && total_amount >= reserved_capacity && total_amount >= u64::MAX ==> r is Err
            && r->Err_0 is InvalidParameter,
        !has_udt && reserved_capacity <= total_amount < u64::MAX ==> r == Ok::<(u128, u64), ProcessingChannelError>(
            ((total_amount - reserved_capacity) as u128, reserved_capacity),
        ),
{
    if has_udt {
        return Ok((total_amount, reserved_capacity));
    }
    if total_amount < reserved_capacity as u128 {
        return Err(ProcessingChannelError::InvalidParameter("funding amount below the reserve".to_string()));
    }
    if total_amount >= u64::MAX as u128 {
        return Err(ProcessingChannelError::InvalidParameter("funding amount too large".to_string()));
    }
    Ok((total_amount - reserved_capacity as u128, reserved_capacity))
}

/// The least `created_at.remote` of the live adds of `s`.
pub open spec fn min_live_created_remote(s: Seq<TlcKindView>) -> Option<u64>
    decreases s.len(),
{
    if s.len() == 0 {
        None
    } else {
        let rest = min_live_created_remote(s.drop_last());
        if s.last().is_live_add() {
            let c = s.last()->AddTlc_0.created_at.remote;
            match rest {
                Some(m) => Some(if c < m { c } else { m }),
                None => Some(c),
            }
        } else {
            rest
        }
    }
}

/// The points of `p` numbered at least `least`, in order.
pub open spec fn points_from(p: Seq<(u64, Pubkey)>, least: u64) -> Seq<(u64, Pubkey)>
    decreases p.len(),
{
    if p.len() == 0 {
        p
    } else {
        let rest = points_from(p.drop_last(), least);
        if p.last().0 >= least {
            rest.push(p.last())
        } else {
            rest
        }
    }
}

/// The least `created_at.remote` of the live adds of `s`.
pub fn min_live_created_remote_of(s: &[crate::tlc::TlcKind]) -> (r: Option<u64>)
    ensures
        r == min_live_created_remote(views(s@)),
{
    let ghost v = views(s@);
    let mut least: Option<u64> = None;
    let mut i: usize = 0;
    proof {
        assert(v.subrange(0, 0) =~= Seq::<TlcKindView>::empty());
    }
    while i < s.len()
        invariant
            i <= s@.len(),
            v == views(s@),
            least == min_live_created_remote(v.subrange(0, i as int)),
        decreases s@.len() - i,
    {
        proof {
            assert(v.subrange(0, i + 1).drop_last() =~= v.subrange(0, i as int));
            assert(v.subrange(0, i + 1).last() == s@[i as int]@);
        }
        match &s[i] {
            crate::tlc::TlcKind::AddTlc(info) => {
                if info.removed_at.is_none() {
                    let c = info.created_at.remote;
                    least = match least {
                        Some(m) => Some(if c < m { c } else { m }),
                        None => Some(c),
                    };
                }
            },
            _ => {},
        }
        i = i + 1;
    }
    proof {
        assert(v.subrange(0, s@.len() as int) =~= v);
    }
    least
}

/// What to do about our local commitment number after a reconnect.
#[derive(Copy, Clone, Debug, PartialEq, Eq, Structural)]
pub enum LocalReestablishAction {
    /// In step: resend our adds and removes made at or after this number, then `CommitmentSigned`.
    ResendFrom(u64),
    /// We are one ahead: the peer will replay its `RevokeAndAck`.
    AwaitRevokeAndAck,
    /// Out of step in a way the protocol does not repair.
    Ignore,
}

/// What to do about the remote commitment number after a reconnect.
#[derive(Copy, Clone, Debug, PartialEq, Eq, Structural)]
pub enum RemoteReestablishAction {
    InSync,
    /// We are one ahead: send again the `RevokeAndAck` made for this remote
    /// number (the peer's); our own numbers stay as they are.
    ResendRevokeAndAck(u64),
    Ignore,
}

/// Compare our commitment numbers with those a `ReestablishChannel`
/// message reports (`peer_local`, `peer_remote` as the peer counts them).
pub fn reestablish_actions(
    expected_local: u64,
    expected_remote: u64,
    peer_local: u64,
    peer_remote: u64,
) -> (r: (LocalReestablishAction, RemoteReestablishAction))
    ensures
        peer_remote == expected_local ==> r.0 == LocalReestablishAction::ResendFrom(peer_remote),
        peer_remote + 1 == expected_local ==> r.0 == LocalReestablishAction::AwaitRevokeAndAck,
        peer_remote != expected_local && peer_remote + 1 != expected_local ==> r.0
            == LocalReestablishAction::Ignore,
        expected_remote == peer_local ==> r.1 == RemoteReestablishAction::InSync,
        expected_remote == peer_local + 1 ==> r.1 == RemoteReestablishAction::ResendRevokeAndAck(peer_local),
        expected_remote != peer_local && expected_remote != peer_local + 1 ==> r.1
            == RemoteReestablishAction::Ignore,
{
    let local = if peer_remote == expected_local {
        LocalReestablishAction::ResendFrom(peer_remote)
    } else if peer_remote as u128 + 1 == expected_local as u128 {
        LocalReestablishAction::AwaitRevokeAndAck
    } else {
        LocalReestablishAction::Ignore
    };
    let remote = if expected_remote == peer_local {
        RemoteReestablishAction::InSync
    } else if expected_remote as u128 == peer_local as u128 + 1 {
        RemoteReestablishAction::ResendRevokeAndAck(peer_local)
    } else {
        RemoteReestablishAction::Ignore
    };
    (local, remote)
}

} // verus!
