use vstd::prelude::*;
use crate::crypto::spec_hash;
use crate::tlc::{hash_equal, Hash256, HashAlgorithm};

verus! {

pub const DEFAULT_FEE_RATE: u64 = 1_000;
pub const DEFAULT_COMMITMENT_FEE_RATE: u64 = 1_000;
/// The default commitment delay, 6 epochs (24 hours).
pub const DEFAULT_COMMITMENT_DELAY_EPOCHS: u64 = 6;
pub const MIN_COMMITMENT_DELAY_EPOCHS: u64 = 1;
pub const MAX_COMMITMENT_DELAY_EPOCHS: u64 = 84;
pub const DEFAULT_MAX_TLC_VALUE_IN_FLIGHT: u128 = 0xffff_ffff_ffff_ffff_ffff_ffff_ffff_ffff;
pub const DEFAULT_MAX_TLC_NUMBER_IN_FLIGHT: u64 = 30;
pub const DEFAULT_MIN_TLC_VALUE: u128 = 0;
pub const SYS_MAX_TLC_NUMBER_IN_FLIGHT: u64 = 253;
pub const MAX_TLC_NUMBER_IN_FLIGHT: u64 = 125;
/// A channel update from node 1 carries this flag.
pub const MESSAGE_OF_NODE1_FLAG: u32 = 0;
/// A channel update from node 2 carries this flag.
pub const MESSAGE_OF_NODE2_FLAG: u32 = 1;
/// A disabled channel accepts no new TLCs.
pub const CHANNEL_DISABLED_FLAG: u32 = 1;
/// The least time, in milliseconds, left before a TLC expires when it is accepted.
pub const MIN_TLC_EXPIRY_DELTA: u64 = 900_000;
/// The farthest a TLC may expire in the future, in milliseconds.
pub const MAX_PAYMENT_TLC_EXPIRY_LIMIT: u64 = 1_209_600_000;
/// The interval of the retry scan of the remove queue, in seconds.
pub const AUTO_SETDOWN_TLC_INTERVAL_SECS: u64 = 2;

// Flags of `ChannelState::NegotiatingFunding`.
pub const OUR_INIT_SENT: u32 = 1;
pub const THEIR_INIT_SENT: u32 = 2;
pub const INIT_SENT: u32 = 3;

// Flags of `ChannelState::CollaboratingFundingTx`.
pub const AWAITING_REMOTE_TX_COLLABORATION_MSG: u32 = 1;
pub const PREPARING_LOCAL_TX_COLLABORATION_MSG: u32 = 2;
pub const OUR_TX_COMPLETE_SENT: u32 = 4;
pub const THEIR_TX_COMPLETE_SENT: u32 = 8;
pub const COLLABRATION_COMPLETED: u32 = 12;

// Flags of `ChannelState::SigningCommitment`.
pub const OUR_COMMITMENT_SIGNED_SENT: u32 = 1;
pub const THEIR_COMMITMENT_SIGNED_SENT: u32 = 2;
pub const COMMITMENT_SIGNED_SENT: u32 = 3;

// Flags of `ChannelState::AwaitingTxSignatures`.
pub const OUR_TX_SIGNATURES_SENT: u32 = 1;
pub const THEIR_TX_SIGNATURES_SENT: u32 = 2;
pub const TX_SIGNATURES_SENT: u32 = 3;

// Flags of `ChannelState::AwaitingChannelReady`.
pub const OUR_CHANNEL_READY: u32 = 1;
pub const THEIR_CHANNEL_READY: u32 = 2;
pub const CHANNEL_READY: u32 = 3;

// Flags of `ChannelState::ShuttingDown`.
pub const OUR_SHUTDOWN_SENT: u32 = 1;
pub const THEIR_SHUTDOWN_SENT: u32 = 2;
pub const AWAITING_PENDING_TLCS: u32 = 3;
pub const DROPPING_PENDING: u32 = 4;
pub const WAITING_COMMITMENT_CONFIRMATION: u32 = 8;

// Flags of `ChannelState::Closed`.
pub const COOPERATIVE: u32 = 1;
pub const UNCOOPERATIVE: u32 = 2;

/// Whether every bit of `wanted` is set in `flags`.
pub fn has_flags(flags: u32, wanted: u32) -> (r: bool)
    ensures
        r == (flags & wanted == wanted),
{
    flags & wanted == wanted
}

/// The top-level state of a channel, each with its set of progress flags.
#[derive(Copy, Clone, Debug, PartialEq, Eq, Structural)]
pub enum ChannelState {
    /// Negotiating the channel's parameters before funding it.
    NegotiatingFunding(u32),
    /// Building the funding transaction together.
    CollaboratingFundingTx(u32),
    /// Exchanging the first `CommitmentSigned` messages.
    SigningCommitment(u32),
    /// Exchanging the funding transaction's signatures.
    AwaitingTxSignatures(u32),
    /// Waiting for the funding transaction to confirm and both `ChannelReady` messages.
    AwaitingChannelReady(u32),
    /// Open for payments.
    ChannelReady(),
    /// Closing, cooperatively or by force.
    ShuttingDown(u32),
    /// Closed.
    Closed(u32),
}

impl ChannelState {
    pub fn is_closed(&self) -> (r: bool)
        ensures
            r == self is Closed,
    {
        match self {
            ChannelState::Closed(_) => true,
            _ => false,
        }
    }
}

/// The limits one side puts on the TLCs in flight towards it.
#[derive(Copy, Clone, Debug, PartialEq, Eq, Structural)]
pub struct ChannelConstraints {
    pub max_tlc_value_in_flight: u128,
    pub max_tlc_number_in_flight: u64,
}

impl ChannelConstraints {
    pub fn new(max_tlc_value_in_flight: u128, max_tlc_number_in_flight: u64) -> (r: Self)
        ensures
            r.max_tlc_value_in_flight == max_tlc_value_in_flight,
            r.max_tlc_number_in_flight == max_tlc_number_in_flight,
    {
        ChannelConstraints { max_tlc_value_in_flight, max_tlc_number_in_flight }
    }

    pub fn default() -> (r: Self)
        ensures
            r.max_tlc_value_in_flight == DEFAULT_MAX_TLC_VALUE_IN_FLIGHT,
            r.max_tlc_number_in_flight == DEFAULT_MAX_TLC_NUMBER_IN_FLIGHT,
    {
        Self::new(DEFAULT_MAX_TLC_VALUE_IN_FLIGHT, DEFAULT_MAX_TLC_NUMBER_IN_FLIGHT)
    }
}

/// The status of an invoice at the final hop.
#[derive(Copy, Clone, Debug, PartialEq, Eq, Structural)]
pub enum InvoiceStatus {
    Open,
    Cancelled,
    Expired,
    Received,
    Paid,
}

/// Why processing a command, a message or an event failed.
#[derive(Debug)]
pub enum ProcessingChannelError {
    InvalidState(String),
    RepeatedProcessing(String),
    InvalidParameter(String),
    CapacityError(String),
    Musig2VerifyError(String),
    Musig2SigningError(String),
    WaitingTlcAck,
    PeelingOnionPacketError(String),
    IncorrectTlcExpiry,
    IncorrectFinalTlcExpiry,
    FinalIncorrectHTLCAmount,
    FinalIncorrectPaymentHash,
    FinalIncorrectPreimage,
    TlcForwardFeeIsTooLow,
    FinalInvoiceInvalid(InvoiceStatus),
    TlcNumberExceedLimit,
    TlcValueInflightExceedLimit,
    TlcAmountIsTooLow,
    TlcAmountExceedLimit,
    TlcExpirySoon,
    TlcExpiryTooFar,
    TlcForwardingError(String),
}

/// An error together with the shared secret that obfuscates it on its way upstream.
#[derive(Debug)]
pub struct ProcessingChannelErrorWithSharedSecret {
    pub source: ProcessingChannelError,
    pub shared_secret: Hash256,
}

impl ProcessingChannelError {
    pub fn with_shared_secret(self, shared_secret: Hash256) -> (r: ProcessingChannelErrorWithSharedSecret)
        ensures
            r.shared_secret == shared_secret,
    {
        ProcessingChannelErrorWithSharedSecret { source: self, shared_secret }
    }

    /// Attach the all-zero secret, for errors that have no secret to go with.
    pub fn without_shared_secret(self) -> (r: ProcessingChannelErrorWithSharedSecret)
        ensures
            r.shared_secret@ == Seq::new(32, |_i: int| 0u8),
    {
        let zero = [0u8; 32];
        proof {
            assert(zero@ =~= Seq::new(32, |_i: int| 0u8));
        }
        self.with_shared_secret(zero)
    }
}

/// The forwarding fee owed on `amount`: `ceil(amount * rate / 1_000_000)`.
pub open spec fn spec_forward_fee(amount: u128, rate: u128) -> int {
    (amount * rate + 999_999) / 1_000_000
}

/// The fee a hop charges for forwarding `amount` at `fee_proportional_millionths`,
/// rounded up; `None` when the product overflows.
pub fn calculate_tlc_forward_fee(amount: u128, fee_proportional_millionths: u128) -> (r: Option<u128>)
    ensures
        r is Some <==> amount * fee_proportional_millionths <= u128::MAX,
        r is Some ==> r.unwrap() == spec_forward_fee(amount, fee_proportional_millionths),
{
    match amount.checked_mul(fee_proportional_millionths) {
        Some(fee) => {
            let base_fee = fee / 1_000_000;
            let remainder = fee % 1_000_000;
            if remainder > 0 {
                Some(base_fee + 1)
            } else {
                Some(base_fee)
            }
        },
        None => None,
    }
}

/// Check a new TLC's expiry against the time `now` (milliseconds): it must
/// lie in `[now + MIN_TLC_EXPIRY_DELTA, now + MAX_PAYMENT_TLC_EXPIRY_LIMIT)`.
pub fn check_tlc_expiry(expiry: u64, now: u64) -> (r: Result<(), ProcessingChannelError>)
    ensures
        expiry < now + MIN_TLC_EXPIRY_DELTA ==> r is Err && r->Err_0 is TlcExpirySoon,
        expiry >= now + MIN_TLC_EXPIRY_DELTA && expiry >= now + MAX_PAYMENT_TLC_EXPIRY_LIMIT ==> r is Err
            && r->Err_0 is TlcExpiryTooFar,
        r is Ok <==> (now + MIN_TLC_EXPIRY_DELTA <= expiry < now + MAX_PAYMENT_TLC_EXPIRY_LIMIT),
{
    if (expiry as u128) < now as u128 + MIN_TLC_EXPIRY_DELTA as u128 {
        return Err(ProcessingChannelError::TlcExpirySoon);
    }
    if expiry as u128 >= now as u128 + MAX_PAYMENT_TLC_EXPIRY_LIMIT as u128 {
        return Err(ProcessingChannelError::TlcExpiryTooFar);
    }
    Ok(())
}

/// The settings of a public channel that the network is told about.
#[derive(Copy, Clone, Debug)]
pub struct PublicChannelInfo {
    pub enabled: bool,
    /// The forwarding fee, in millionths of the forwarded amount.
    pub tlc_fee_proportional_millionths: u128,
    /// The least difference, in milliseconds, between an inbound TLC's
    /// expiry and that of the TLC it is forwarded as.
    pub tlc_expiry_delta: u64,
    /// The least amount forwarded.
    pub tlc_min_value: u128,
}

impl PublicChannelInfo {
    pub fn new(tlc_min_value: u128, tlc_expiry_delta: u64, tlc_fee_proportional_millionths: u128) -> (r: Self)
        ensures
            r.enabled,
            r.tlc_min_value == tlc_min_value,
            r.tlc_expiry_delta == tlc_expiry_delta,
            r.tlc_fee_proportional_millionths == tlc_fee_proportional_millionths,
    {
        PublicChannelInfo { enabled: true, tlc_fee_proportional_millionths, tlc_expiry_delta, tlc_min_value }
    }
}

/// What the onion service found for the next hop of an inbound TLC.
#[derive(Copy, Clone, Debug)]
pub struct PeeledHop {
    /// Whether this node is the payment's destination.
    pub is_last: bool,
    /// The amount to forward (or, at the destination, to receive).
    pub amount: u128,
    /// The expiry of the TLC to forward (or, at the destination, the least expiry).
    pub expiry: u64,
    /// The preimage, where the packet carries one.
    pub payment_preimage: Option<Hash256>,
}

/// What to do with an inbound TLC whose checks passed.
#[derive(Copy, Clone, Debug)]
pub enum PeeledTlcAction {
    /// Settle it with this preimage (this node is the destination).
    Settle(Hash256),
    /// Forward it to the next hop.
    Forward,
}

/// The first check an inbound TLC fails at its destination.
pub enum FinalHopFailure {
    /// The forwarded amount differs from the TLC's.
    Amount,
    /// The TLC expires before the packet says it may.
    ExpiryBelowPacket,
    /// The TLC expires too soon.
    ExpirySoon,
    /// The invoice is not open.
    InvoiceNotOpen,
    /// No preimage is known.
    NoPreimage,
    /// The preimage does not hash to the payment hash.
    WrongPreimage,
}

/// Whether an inbound TLC may be settled at the destination: amount,
/// expiry, invoice and preimage, in that order.
pub open spec fn spec_final_hop_error(
    amount: u128,
    expiry: u64,
    payment_hash: Hash256,
    algorithm: HashAlgorithm,
    hop: PeeledHop,
    invoice: Option<InvoiceStatus>,
    preimage: Option<Hash256>,
    now: u64,
) -> Option<FinalHopFailure> {
    if hop.amount != amount {
        Some(FinalHopFailure::Amount)
    } else if expiry < hop.expiry {
        Some(FinalHopFailure::ExpiryBelowPacket)
    } else if expiry < now + MIN_TLC_EXPIRY_DELTA {
        Some(FinalHopFailure::ExpirySoon)
    } else if invoice is Some && invoice.unwrap() != InvoiceStatus::Open {
        Some(FinalHopFailure::InvoiceNotOpen)
    } else if preimage is None {
        Some(FinalHopFailure::NoPreimage)
    } else if spec_hash(algorithm, preimage.unwrap()@) != payment_hash@ {
        Some(FinalHopFailure::WrongPreimage)
    } else {
        None
    }
}

/// Decide on an inbound TLC once its onion packet is peeled, at time `now`.
///
/// At the destination (`hop.is_last`) the forwarded amount must equal the
/// TLC's, the TLC's expiry must reach the packet's and lie at least
/// `MIN_TLC_EXPIRY_DELTA` ahead, the invoice (where `invoice` holds its
/// status) must be open, and a preimage (the packet's, else
/// `invoice_preimage`) must hash to the payment hash; the TLC is then settled.
/// At an intermediate hop the channel must be public and enabled, the
/// amount at least its minimum, the expiry at least `tlc_expiry_delta`
/// past the forwarded one, and the fee left at least the forwarding fee.
pub fn check_peeled_tlc(
    amount: u128,
    expiry: u64,
    payment_hash: &Hash256,
    hash_algorithm: HashAlgorithm,
    hop: &PeeledHop,
    invoice: Option<InvoiceStatus>,
    invoice_preimage: Option<Hash256>,
    public_channel_info: Option<PublicChannelInfo>,
    now: u64,
) -> (r: Result<PeeledTlcAction, ProcessingChannelError>)
    ensures
        hop.is_last ==> {
            let preimage = if hop.payment_preimage is Some {
                hop.payment_preimage
            } else {
                invoice_preimage
            };
            let e = spec_final_hop_error(amount, expiry, *payment_hash, hash_algorithm, *hop, invoice, preimage, now);
            &&& e == Some(FinalHopFailure::Amount) <==> (r is Err && r->Err_0 is FinalIncorrectHTLCAmount)
            &&& e == Some(FinalHopFailure::ExpiryBelowPacket) <==> (r is Err && r->Err_0 is IncorrectFinalTlcExpiry)
            &&& e == Some(FinalHopFailure::ExpirySoon) <==> (r is Err && r->Err_0 is TlcExpirySoon)
            &&& e == Some(FinalHopFailure::InvoiceNotOpen) <==> (r is Err && r->Err_0 == ProcessingChannelError::FinalInvoiceInvalid(invoice.unwrap()))
            &&& e == Some(FinalHopFailure::NoPreimage) <==> (r is Err && r->Err_0 is FinalIncorrectPaymentHash)
            &&& e == Some(FinalHopFailure::WrongPreimage) <==> (r is Err && r->Err_0 is FinalIncorrectPreimage)
            &&& e is None <==> r is Ok
            &&& r is Ok ==> r->Ok_0 == PeeledTlcAction::Settle(preimage.unwrap())
        },
        !hop.is_last ==> {
            match public_channel_info {
                Some(info) if info.enabled => {
                    &&& (info.tlc_min_value > amount) ==> (r is Err && r->Err_0 is TlcAmountIsTooLow)
                    &&& (info.tlc_min_value <= amount && expiry < hop.expiry + info.tlc_expiry_delta)
                        ==> (r is Err && r->Err_0 is IncorrectTlcExpiry)
                    &&& (info.tlc_min_value <= amount && expiry >= hop.expiry + info.tlc_expiry_delta)
                        ==> ((r is Err && r->Err_0 is TlcForwardFeeIsTooLow) <==> (amount < hop.amount
                        || hop.amount * info.tlc_fee_proportional_millionths > u128::MAX
                        || amount - hop.amount < spec_forward_fee(
                        hop.amount,
                        info.tlc_fee_proportional_millionths,
                    )))
                    &&& r is Ok <==> (info.tlc_min_value <= amount && expiry >= hop.expiry
                        + info.tlc_expiry_delta && amount >= hop.amount && hop.amount
                        * info.tlc_fee_proportional_millionths <= u128::MAX && amount - hop.amount
                        >= spec_forward_fee(hop.amount, info.tlc_fee_proportional_millionths))
                    &&& r is Ok ==> r->Ok_0 is Forward
                },
                _ => r is Err && r->Err_0 is InvalidState,
            }
        },
{
    if hop.is_last {
        if hop.amount != amount {
            return Err(ProcessingChannelError::FinalIncorrectHTLCAmount);
        }
        if expiry < hop.expiry {
            return Err(ProcessingChannelError::IncorrectFinalTlcExpiry);
        }
        if (expiry as u128) < now as u128 + MIN_TLC_EXPIRY_DELTA as u128 {
            return Err(ProcessingChannelError::TlcExpirySoon);
        }
        match invoice {
            Some(status) => {
                if status != InvoiceStatus::Open {
                    return Err(ProcessingChannelError::FinalInvoiceInvalid(status));
                }
            },
            None => {},
        }
        let preimage = match hop.payment_preimage {
            Some(p) => Some(p),
            None => invoice_preimage,
        };
        match preimage {
            Some(p) => {
                let filled = hash_algorithm.hash(p.as_slice());
                if !hash_equal(&filled, payment_hash) {
                    return Err(ProcessingChannelError::FinalIncorrectPreimage);
                }
                Ok(PeeledTlcAction::Settle(p))
            },
            None => Err(ProcessingChannelError::FinalIncorrectPaymentHash),
        }
    } else {
        match public_channel_info {
            Some(info) => {
                if !info.enabled {
                    return Err(
                        ProcessingChannelError::InvalidState(
                            "the channel is not public or disabled".to_string(),
                        ),
                    );
                }
                if info.tlc_min_value > amount {
                    return Err(ProcessingChannelError::TlcAmountIsTooLow);
                }
                if (expiry as u128) < hop.expiry as u128 + info.tlc_expiry_delta as u128 {
                    return Err(ProcessingChannelError::IncorrectTlcExpiry);
                }
                if amount < hop.amount {
                    return Err(ProcessingChannelError::TlcForwardFeeIsTooLow);
                }
                let forward_fee = amount - hop.amount;
                match calculate_tlc_forward_fee(hop.amount, info.tlc_fee_proportional_millionths) {
                    Some(expected) => {
                        if forward_fee < expected {
                            return Err(ProcessingChannelError::TlcForwardFeeIsTooLow);
                        }
                        Ok(PeeledTlcAction::Forward)
                    },
                    None => Err(ProcessingChannelError::TlcForwardFeeIsTooLow),
                }
            },
            None => Err(
                ProcessingChannelError::InvalidState("the channel is not public or disabled".to_string()),
            ),
        }
    }
}

} // verus!
