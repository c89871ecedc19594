use vstd::prelude::*;
use crate::channel::{
    has_flags, ChannelState, ProcessingChannelError, AWAITING_PENDING_TLCS, AWAITING_REMOTE_TX_COLLABORATION_MSG,
    CHANNEL_READY, COMMITMENT_SIGNED_SENT, DROPPING_PENDING, INIT_SENT, OUR_CHANNEL_READY, OUR_SHUTDOWN_SENT,
    OUR_TX_COMPLETE_SENT, OUR_TX_SIGNATURES_SENT, THEIR_CHANNEL_READY, THEIR_SHUTDOWN_SENT, THEIR_TX_COMPLETE_SENT,
    THEIR_TX_SIGNATURES_SENT, TX_SIGNATURES_SENT, UNCOOPERATIVE, WAITING_COMMITMENT_CONFIRMATION,
};

verus! {

/// How far along its life a channel is: the top-level states in protocol order.
pub open spec fn rank(s: ChannelState) -> int {
    match s {
        ChannelState::NegotiatingFunding(_) => 0,
        ChannelState::CollaboratingFundingTx(_) => 1,
        ChannelState::SigningCommitment(_) => 2,
        ChannelState::AwaitingTxSignatures(_) => 3,
        ChannelState::AwaitingChannelReady(_) => 4,
        ChannelState::ChannelReady() => 5,
        ChannelState::ShuttingDown(_) => 6,
        ChannelState::Closed(_) => 7,
    }
}

/// Check a funding-collaboration message (`is_complete`: a `TxComplete`)
/// against the state, and give the collaboration flags it proceeds from.
/// The opener may not receive the first one; while collaborating, only a
/// `TxComplete` may arrive unless a message from the peer is awaited, and
/// nothing may arrive after the peer's `TxComplete`.
pub fn check_tx_collaboration_msg(state: ChannelState, is_acceptor: bool, is_complete: bool) -> (r: Result<
    u32,
    ProcessingChannelError,
>)
    ensures
        match state {
            ChannelState::NegotiatingFunding(f) => if f == INIT_SENT && !is_acceptor {
                r is Err && r->Err_0 is InvalidState
            } else {
                r == Ok::<u32, ProcessingChannelError>(0)
            },
            ChannelState::CollaboratingFundingTx(f) => if !is_complete && f & AWAITING_REMOTE_TX_COLLABORATION_MSG
                != AWAITING_REMOTE_TX_COLLABORATION_MSG {
                r is Err && r->Err_0 is InvalidState
            } else if f & THEIR_TX_COMPLETE_SENT == THEIR_TX_COMPLETE_SENT {
                r is Err && r->Err_0 is InvalidState
            } else {
                r == Ok::<u32, ProcessingChannelError>(f)
            },
            _ => r is Err && r->Err_0 is InvalidState,
        },
{
    match state {
        ChannelState::NegotiatingFunding(f) => {
            if f == INIT_SENT && !is_acceptor {
                Err(ProcessingChannelError::InvalidState("the opener received a tx collaboration message".to_string()))
            } else {
                Ok(0)
            }
        },
        ChannelState::CollaboratingFundingTx(f) => {
            if !is_complete && !has_flags(f, AWAITING_REMOTE_TX_COLLABORATION_MSG) {
                return Err(ProcessingChannelError::InvalidState("no message from the peer is awaited".to_string()));
            }
            if has_flags(f, THEIR_TX_COMPLETE_SENT) {
                return Err(ProcessingChannelError::InvalidState("the peer already completed".to_string()));
            }
            Ok(f)
        },
        _ => Err(ProcessingChannelError::InvalidState("not collaborating on the funding tx".to_string())),
    }
}

/// The state after the peer's `TxComplete` was accepted in collaboration `flags`.
pub fn on_their_tx_complete(flags: u32) -> (r: ChannelState)
    ensures
        r == ChannelState::CollaboratingFundingTx(flags | THEIR_TX_COMPLETE_SENT),
{
    ChannelState::CollaboratingFundingTx(flags | THEIR_TX_COMPLETE_SENT)
}

/// The state after we sent our `TxComplete`.
pub fn on_our_tx_complete(state: ChannelState) -> (r: Result<ChannelState, ProcessingChannelError>)
    ensures
        match state {
            ChannelState::CollaboratingFundingTx(f) => r == Ok::<ChannelState, ProcessingChannelError>(
                ChannelState::CollaboratingFundingTx(f | OUR_TX_COMPLETE_SENT),
            ),
            _ => r is Err && r->Err_0 is InvalidState,
        },
        r is Ok ==> rank(r->Ok_0) >= rank(state),
{
    match state {
        ChannelState::CollaboratingFundingTx(f) => Ok(ChannelState::CollaboratingFundingTx(f | OUR_TX_COMPLETE_SENT)),
        _ => Err(ProcessingChannelError::InvalidState("not collaborating on the funding tx".to_string())),
    }
}

/// Once both `CommitmentSigned` messages are sent, signing the funding tx begins.
pub fn maybe_transition_to_tx_signatures(flags: u32) -> (r: Option<ChannelState>)
    ensures
        r == if flags & COMMITMENT_SIGNED_SENT == COMMITMENT_SIGNED_SENT {
            Some(ChannelState::AwaitingTxSignatures(0))
        } else {
            None::<ChannelState>
        },
{
    if has_flags(flags, COMMITMENT_SIGNED_SENT) {
        Some(ChannelState::AwaitingTxSignatures(0))
    } else {
        None
    }
}

/// The state after funding-tx signatures are exchanged: ours when sending
/// (`from_peer` false), the peer's and then ours when they arrive. A second
/// set from the same side is `RepeatedProcessing`.
pub fn on_tx_signatures(state: ChannelState, from_peer: bool) -> (r: Result<ChannelState, ProcessingChannelError>)
    ensures
        match state {
            ChannelState::AwaitingTxSignatures(f) => if from_peer && f & THEIR_TX_SIGNATURES_SENT
                == THEIR_TX_SIGNATURES_SENT {
                r is Err && r->Err_0 is RepeatedProcessing
            } else if !from_peer && f & OUR_TX_SIGNATURES_SENT == OUR_TX_SIGNATURES_SENT {
                r is Err && r->Err_0 is RepeatedProcessing
            } else {
                r == Ok::<ChannelState, ProcessingChannelError>(ChannelState::AwaitingTxSignatures(
                    (if from_peer { f | THEIR_TX_SIGNATURES_SENT } else { f }) | OUR_TX_SIGNATURES_SENT,
                ))
            },
            ChannelState::SigningCommitment(f) => if f & COMMITMENT_SIGNED_SENT == COMMITMENT_SIGNED_SENT {
                r == Ok::<ChannelState, ProcessingChannelError>(ChannelState::AwaitingTxSignatures(
                    (if from_peer { 0u32 | THEIR_TX_SIGNATURES_SENT } else { 0u32 }) | OUR_TX_SIGNATURES_SENT,
                ))
            } else {
                r is Err && r->Err_0 is InvalidState
            },
            _ => r is Err && r->Err_0 is InvalidState,
        },
        r is Ok ==> rank(r->Ok_0) >= rank(state),
{
    let flags: u32 = match state {
        ChannelState::AwaitingTxSignatures(f) => {
            if from_peer && has_flags(f, THEIR_TX_SIGNATURES_SENT) {
                return Err(ProcessingChannelError::RepeatedProcessing("the peer's signatures arrived before".to_string()));
            }
            if !from_peer && has_flags(f, OUR_TX_SIGNATURES_SENT) {
                return Err(ProcessingChannelError::RepeatedProcessing("our signatures were sent before".to_string()));
            }
            f
        },
        ChannelState::SigningCommitment(f) => {
            if !has_flags(f, COMMITMENT_SIGNED_SENT) {
                return Err(ProcessingChannelError::InvalidState("commitments are not signed yet".to_string()));
            }
            0
        },
        _ => {
            return Err(ProcessingChannelError::InvalidState("not signing the funding tx".to_string()));
        },
    };
    let flags = if from_peer {
        flags | THEIR_TX_SIGNATURES_SENT
    } else {
        flags
    };
    Ok(ChannelState::AwaitingTxSignatures(flags | OUR_TX_SIGNATURES_SENT))
}

/// The flags of `AwaitingChannelReady` that a ready signal proceeds from:
/// both funding signatures must be sent, or readiness already awaited.
pub open spec fn ready_base(state: ChannelState) -> Option<u32> {
    match state {
        ChannelState::AwaitingTxSignatures(f) => if f & TX_SIGNATURES_SENT == TX_SIGNATURES_SENT {
            Some(0u32)
        } else {
            None
        },
        ChannelState::AwaitingChannelReady(f) => Some(f),
        _ => None,
    }
}

fn ready_flags(state: ChannelState) -> (r: Option<u32>)
    ensures
        r == ready_base(state),
{
    match state {
        ChannelState::AwaitingTxSignatures(f) => {
            if has_flags(f, TX_SIGNATURES_SENT) {
                Some(0)
            } else {
                None
            }
        },
        ChannelState::AwaitingChannelReady(f) => Some(f),
        _ => None,
    }
}

/// The state after the peer's `ChannelReady`.
pub fn on_their_channel_ready(state: ChannelState) -> (r: Result<ChannelState, ProcessingChannelError>)
    ensures
        match ready_base(state) {
            Some(f) => r == Ok::<ChannelState, ProcessingChannelError>(
                ChannelState::AwaitingChannelReady(f | THEIR_CHANNEL_READY),
            ),
            None => r is Err && r->Err_0 is InvalidState,
        },
        r is Ok ==> rank(r->Ok_0) >= rank(state),
{
    match ready_flags(state) {
        Some(f) => Ok(ChannelState::AwaitingChannelReady(f | THEIR_CHANNEL_READY)),
        None => Err(ProcessingChannelError::InvalidState("not ready for ChannelReady".to_string())),
    }
}

/// The state after the funding tx is confirmed and our `ChannelReady` goes out.
pub fn on_funding_confirmed(state: ChannelState) -> (r: Result<ChannelState, ProcessingChannelError>)
    ensures
        match ready_base(state) {
            Some(f) => r == Ok::<ChannelState, ProcessingChannelError>(
                ChannelState::AwaitingChannelReady(f | OUR_CHANNEL_READY),
            ),
            None => r is Err && r->Err_0 is InvalidState,
        },
        r is Ok ==> rank(r->Ok_0) >= rank(state),
{
    match ready_flags(state) {
        Some(f) => Ok(ChannelState::AwaitingChannelReady(f | OUR_CHANNEL_READY)),
        None => Err(ProcessingChannelError::InvalidState("not waiting for the funding tx".to_string())),
    }
}

/// Whether both `ChannelReady` messages are exchanged.
pub fn both_channel_ready(flags: u32) -> (r: bool)
    ensures
        r == (flags & CHANNEL_READY == CHANNEL_READY),
{
    has_flags(flags, CHANNEL_READY)
}

/// The state once a ready channel's announcement work is done.
pub fn on_channel_ready(state: ChannelState) -> (r: Result<ChannelState, ProcessingChannelError>)
    ensures
        match state {
            ChannelState::AwaitingChannelReady(f) => if f & CHANNEL_READY == CHANNEL_READY {
                r == Ok::<ChannelState, ProcessingChannelError>(ChannelState::ChannelReady())
            } else {
                r is Err && r->Err_0 is InvalidState
            },
            _ => r is Err && r->Err_0 is InvalidState,
        },
        r is Ok ==> rank(r->Ok_0) > rank(state),
{
    match state {
        ChannelState::AwaitingChannelReady(f) => {
            if both_channel_ready(f) {
                Ok(ChannelState::ChannelReady())
            } else {
                Err(ProcessingChannelError::InvalidState("a ChannelReady is missing".to_string()))
            }
        },
        _ => Err(ProcessingChannelError::InvalidState("not waiting for ChannelReady".to_string())),
    }
}

/// The shutdown flags a peer's `Shutdown` proceeds from: a ready channel
/// starts from none; a second `Shutdown` from the peer is an `InvalidParameter`.
pub fn check_shutdown_message(state: ChannelState) -> (r: Result<u32, ProcessingChannelError>)
    ensures
        match state {
            ChannelState::ChannelReady() => r == Ok::<u32, ProcessingChannelError>(0),
            ChannelState::ShuttingDown(f) => if f & THEIR_SHUTDOWN_SENT == THEIR_SHUTDOWN_SENT {
                r is Err && r->Err_0 is InvalidParameter
            } else {
                r == Ok::<u32, ProcessingChannelError>(f)
            },
            _ => r is Err && r->Err_0 is InvalidState,
        },
{
    match state {
        ChannelState::ChannelReady() => Ok(0),
        ChannelState::ShuttingDown(f) => {
            if has_flags(f, THEIR_SHUTDOWN_SENT) {
                Err(ProcessingChannelError::InvalidParameter("the peer already sent Shutdown".to_string()))
            } else {
                Ok(f)
            }
        },
        _ => Err(ProcessingChannelError::InvalidState("not ready for Shutdown".to_string())),
    }
}

/// The state after the peer's `Shutdown`, from `flags`: when only theirs
/// is sent and `auto_accept` holds, ours is sent back at once.
pub fn on_their_shutdown(flags: u32, auto_accept: bool) -> (r: (ChannelState, bool))
    ensures
        ({
            let f = flags | THEIR_SHUTDOWN_SENT;
            let reply = auto_accept && f == THEIR_SHUTDOWN_SENT;
            &&& r.1 == reply
            &&& r.0 == ChannelState::ShuttingDown(if reply { f | OUR_SHUTDOWN_SENT } else { f })
        }),
{
    let f = flags | THEIR_SHUTDOWN_SENT;
    let reply = auto_accept && f == THEIR_SHUTDOWN_SENT;
    if reply {
        (ChannelState::ShuttingDown(f | OUR_SHUTDOWN_SENT), true)
    } else {
        (ChannelState::ShuttingDown(f), false)
    }
}

/// The state after our shutdown command: a forced one (from a ready or
/// shutting-down channel) waits for the commitment tx to confirm; a
/// cooperative one (from a ready channel) records that ours is sent.
pub fn on_shutdown_command(state: ChannelState, force: bool) -> (r: Result<ChannelState, ProcessingChannelError>)
    ensures
        force ==> match state {
            ChannelState::ChannelReady() | ChannelState::ShuttingDown(_) => r == Ok::<
                ChannelState,
                ProcessingChannelError,
            >(ChannelState::ShuttingDown(WAITING_COMMITMENT_CONFIRMATION)),
            _ => r is Err && r->Err_0 is InvalidState,
        },
        !force ==> match state {
            ChannelState::ChannelReady() => r == Ok::<ChannelState, ProcessingChannelError>(
                ChannelState::ShuttingDown(0u32 | OUR_SHUTDOWN_SENT),
            ),
            _ => r is Err && r->Err_0 is InvalidState,
        },
        r is Ok ==> rank(r->Ok_0) >= rank(state),
{
    if force {
        match state {
            ChannelState::ChannelReady() | ChannelState::ShuttingDown(_) => Ok(
                ChannelState::ShuttingDown(WAITING_COMMITMENT_CONFIRMATION),
            ),
            _ => Err(ProcessingChannelError::InvalidState("cannot force a shutdown now".to_string())),
        }
    } else {
        match state {
            ChannelState::ChannelReady() => Ok(ChannelState::ShuttingDown(0u32 | OUR_SHUTDOWN_SENT)),
            _ => Err(ProcessingChannelError::InvalidState("cannot start a shutdown now".to_string())),
        }
    }
}

/// Whether a shutting-down channel may be closed now: both `Shutdown`
/// messages are sent and no TLC is pending. Gives the state that marks it.
pub fn maybe_transition_to_shutdown(state: ChannelState, any_tlc_pending: bool) -> (r: Option<ChannelState>)
    ensures
        r == match state {
            ChannelState::ShuttingDown(f) => if f & AWAITING_PENDING_TLCS == AWAITING_PENDING_TLCS
                && !any_tlc_pending {
                Some(ChannelState::ShuttingDown(f | DROPPING_PENDING))
            } else {
                None::<ChannelState>
            },
            _ => None::<ChannelState>,
        },
{
    match state {
        ChannelState::ShuttingDown(f) => {
            if has_flags(f, AWAITING_PENDING_TLCS) && !any_tlc_pending {
                Some(ChannelState::ShuttingDown(f | DROPPING_PENDING))
            } else {
                None
            }
        },
        _ => None,
    }
}

/// The state once the forced commitment tx is confirmed.
pub fn on_commitment_tx_confirmed(state: ChannelState) -> (r: Result<ChannelState, ProcessingChannelError>)
    ensures
        match state {
            ChannelState::ShuttingDown(f) => if f & WAITING_COMMITMENT_CONFIRMATION == WAITING_COMMITMENT_CONFIRMATION {
                r == Ok::<ChannelState, ProcessingChannelError>(ChannelState::Closed(UNCOOPERATIVE))
            } else {
                r is Err && r->Err_0 is InvalidState
            },
            _ => r is Err && r->Err_0 is InvalidState,
        },
        r is Ok ==> rank(r->Ok_0) > rank(state),
{
    match state {
        ChannelState::ShuttingDown(f) => {
            if has_flags(f, WAITING_COMMITMENT_CONFIRMATION) {
                Ok(ChannelState::Closed(UNCOOPERATIVE))
            } else {
                Err(ProcessingChannelError::InvalidState("no commitment tx is awaited".to_string()))
            }
        },
        _ => Err(ProcessingChannelError::InvalidState("not shutting down".to_string())),
    }
}

} // verus!
