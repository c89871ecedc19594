use fiber_channel::channel::{
    ChannelState, ProcessingChannelError, AWAITING_PENDING_TLCS, AWAITING_REMOTE_TX_COLLABORATION_MSG,
    COLLABRATION_COMPLETED, COMMITMENT_SIGNED_SENT, COOPERATIVE, DROPPING_PENDING, INIT_SENT, OUR_CHANNEL_READY,
    OUR_INIT_SENT, OUR_SHUTDOWN_SENT, OUR_TX_COMPLETE_SENT, THEIR_CHANNEL_READY, THEIR_SHUTDOWN_SENT,
    THEIR_TX_COMPLETE_SENT, TX_SIGNATURES_SENT, UNCOOPERATIVE, WAITING_COMMITMENT_CONFIRMATION,
};
use fiber_channel::transitions::{
    check_shutdown_message, check_tx_collaboration_msg, maybe_transition_to_shutdown, maybe_transition_to_tx_signatures,
    on_channel_ready, on_commitment_tx_confirmed, on_funding_confirmed, on_our_tx_complete, on_shutdown_command,
    on_their_channel_ready, on_their_shutdown, on_their_tx_complete, on_tx_signatures,
};

#[test]
fn funding_collaboration() {
    let negotiating = ChannelState::NegotiatingFunding(INIT_SENT);
    assert!(matches!(check_tx_collaboration_msg(negotiating, false, false), Err(ProcessingChannelError::InvalidState(_))));
    assert_eq!(check_tx_collaboration_msg(negotiating, true, false).unwrap(), 0);
    assert_eq!(check_tx_collaboration_msg(ChannelState::NegotiatingFunding(OUR_INIT_SENT), false, false).unwrap(), 0);
    let collab = ChannelState::CollaboratingFundingTx(0);
    assert!(check_tx_collaboration_msg(collab, true, false).is_err());
    assert_eq!(check_tx_collaboration_msg(collab, true, true).unwrap(), 0);
    let awaiting = ChannelState::CollaboratingFundingTx(AWAITING_REMOTE_TX_COLLABORATION_MSG);
    assert!(check_tx_collaboration_msg(awaiting, true, false).is_ok());
    let theirs = on_their_tx_complete(0);
    assert_eq!(theirs, ChannelState::CollaboratingFundingTx(THEIR_TX_COMPLETE_SENT));
    assert!(check_tx_collaboration_msg(theirs, true, true).is_err());
    let both = on_our_tx_complete(theirs).unwrap();
    assert_eq!(both, ChannelState::CollaboratingFundingTx(COLLABRATION_COMPLETED));
    assert_eq!(both, ChannelState::CollaboratingFundingTx(OUR_TX_COMPLETE_SENT | THEIR_TX_COMPLETE_SENT));
    assert!(on_our_tx_complete(ChannelState::ChannelReady()).is_err());
}

#[test]
fn signing_and_readiness() {
    assert_eq!(maybe_transition_to_tx_signatures(1), None);
    assert_eq!(maybe_transition_to_tx_signatures(COMMITMENT_SIGNED_SENT), Some(ChannelState::AwaitingTxSignatures(0)));
    let signing = ChannelState::SigningCommitment(COMMITMENT_SIGNED_SENT);
    let ours = on_tx_signatures(signing, false).unwrap();
    assert_eq!(ours, ChannelState::AwaitingTxSignatures(1));
    assert!(matches!(on_tx_signatures(ours, false), Err(ProcessingChannelError::RepeatedProcessing(_))));
    let both = on_tx_signatures(ours, true).unwrap();
    assert_eq!(both, ChannelState::AwaitingTxSignatures(TX_SIGNATURES_SENT));
    assert!(matches!(on_tx_signatures(both, true), Err(ProcessingChannelError::RepeatedProcessing(_))));
    assert!(on_their_channel_ready(ours).is_err());
    let confirmed = on_funding_confirmed(both).unwrap();
    assert_eq!(confirmed, ChannelState::AwaitingChannelReady(OUR_CHANNEL_READY));
    assert!(on_channel_ready(confirmed).is_err());
    let ready = on_their_channel_ready(confirmed).unwrap();
    assert_eq!(ready, ChannelState::AwaitingChannelReady(OUR_CHANNEL_READY | THEIR_CHANNEL_READY));
    assert_eq!(on_channel_ready(ready).unwrap(), ChannelState::ChannelReady());
}

#[test]
fn cooperative_shutdown_flags() {
    let ready = ChannelState::ChannelReady();
    let flags = check_shutdown_message(ready).unwrap();
    let (state, reply) = on_their_shutdown(flags, true);
    assert!(reply);
    assert_eq!(state, ChannelState::ShuttingDown(AWAITING_PENDING_TLCS));
    assert!(matches!(check_shutdown_message(state), Err(ProcessingChannelError::InvalidParameter(_))));
    assert_eq!(maybe_transition_to_shutdown(state, true), None);
    assert_eq!(maybe_transition_to_shutdown(state, false), Some(ChannelState::ShuttingDown(AWAITING_PENDING_TLCS | DROPPING_PENDING)));
    let (not_auto, reply) = on_their_shutdown(0, false);
    assert!(!reply);
    assert_eq!(not_auto, ChannelState::ShuttingDown(THEIR_SHUTDOWN_SENT));
    let ours = on_shutdown_command(ready, false).unwrap();
    assert_eq!(ours, ChannelState::ShuttingDown(OUR_SHUTDOWN_SENT));
    let (after, reply) = on_their_shutdown(check_shutdown_message(ours).unwrap(), true);
    assert!(!reply);
    assert_eq!(after, ChannelState::ShuttingDown(AWAITING_PENDING_TLCS));
    assert!(on_shutdown_command(ours, false).is_err());
    assert!(check_shutdown_message(ChannelState::Closed(COOPERATIVE)).is_err());
}

#[test]
fn forced_shutdown_closes_uncooperatively() {
    let forced = on_shutdown_command(ChannelState::ChannelReady(), true).unwrap();
    assert_eq!(forced, ChannelState::ShuttingDown(WAITING_COMMITMENT_CONFIRMATION));
    assert_eq!(on_commitment_tx_confirmed(forced).unwrap(), ChannelState::Closed(UNCOOPERATIVE));
    assert!(on_commitment_tx_confirmed(ChannelState::ShuttingDown(OUR_SHUTDOWN_SENT)).is_err());
    assert!(on_shutdown_command(ChannelState::NegotiatingFunding(INIT_SENT), true).is_err());
}
