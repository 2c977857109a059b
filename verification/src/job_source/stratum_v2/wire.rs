//! Decoding of the pool's messages.
//!
//! The binary form of Stratum V2 messages is read by the `stratum_core`
//! crate. The two functions here hand a message type and a payload to its
//! parsers and move the fields that this source reads into plain values.
//! Their contracts are taken on trust: they only give the outcome a name.

use super::messages::{
    CommonMessage, NewMiningJob, NewMiningJobView, PoolMessage, PoolMessageView, SetNewPrevHash,
    SetNewPrevHashView, SetTarget, SetTargetView,
};
use stratum_core::parsers_sv2::{CommonMessages, Mining};
use vstd::prelude::*;

verus! {

/// What the parser of `stratum_core` reads from a payload as a mining
/// message of the given type; nothing when the type is not a mining message
/// or the payload is not a message of that type.
pub uninterp spec fn decoded_mining(message_type: u8, payload: Seq<u8>) -> Option<PoolMessageView>;

/// What the parser of `stratum_core` reads from a payload as a common
/// message of the given type; nothing when the type is not a common message
/// or the payload is not a message of that type.
pub uninterp spec fn decoded_common(message_type: u8, payload: Seq<u8>) -> Option<CommonMessage>;

/// A mining message as it comes out of the parser: the fields that this
/// source reads, in the order in which the message holds them.
pub(crate) enum WireMessage {
    /// Channel, job id, time (none for a future job), version, merkle root.
    NewMiningJob(u32, u32, Option<u32>, u32, Vec<u8>),
    /// Channel, job id, previous-block hash, time, difficulty bits.
    SetNewPrevHash(u32, u32, Vec<u8>, u32, u32),
    /// Channel, target.
    SetTarget(u32, Vec<u8>),
    SubmitSharesSuccess,
    /// Error code.
    SubmitSharesError(Vec<u8>),
    SetCustomMiningJob,
    /// Id of the channel that was opened.
    ChannelOpened(u32),
    ChannelRefused,
    Other,
}

impl View for WireMessage {
    type V = PoolMessageView;

    closed spec fn view(&self) -> PoolMessageView {
        match self {
            WireMessage::NewMiningJob(channel_id, job_id, min_ntime, version, merkle_root) => {
                PoolMessageView::NewMiningJob(
                    NewMiningJobView {
                        channel_id: *channel_id,
                        job_id: *job_id,
                        min_ntime: *min_ntime,
                        version: *version,
                        merkle_root: merkle_root@,
                    },
                )
            },
            WireMessage::SetNewPrevHash(channel_id, job_id, prev_hash, min_ntime, nbits) => {
                PoolMessageView::SetNewPrevHash(
                    SetNewPrevHashView {
                        channel_id: *channel_id,
                        job_id: *job_id,
                        prev_hash: prev_hash@,
                        min_ntime: *min_ntime,
                        nbits: *nbits,
                    },
                )
            },
            WireMessage::SetTarget(channel_id, maximum_target) => PoolMessageView::SetTarget(
                SetTargetView { channel_id: *channel_id, maximum_target: maximum_target@ },
            ),
            WireMessage::SubmitSharesSuccess => PoolMessageView::SubmitSharesSuccess,
            WireMessage::SubmitSharesError(code) => PoolMessageView::SubmitSharesError(code@),
            WireMessage::SetCustomMiningJob => PoolMessageView::SetCustomMiningJob,
            WireMessage::ChannelOpened(id) => PoolMessageView::ChannelOpened(*id),
            WireMessage::ChannelRefused => PoolMessageView::ChannelRefused,
            WireMessage::Other => PoolMessageView::Other,
        }
    }
}

/// View of a decoded message that may be absent.
pub(crate) closed spec fn wire_view(msg: Option<WireMessage>) -> Option<PoolMessageView> {
    match msg {
        Some(m) => Some(m@),
        None => None,
    }
}

impl WireMessage {
    /// The message with its fields by name.
    pub(crate) fn into_pool_message(self) -> (msg: PoolMessage)
        ensures
            msg@ == self@,
    {
        match self {
            WireMessage::NewMiningJob(channel_id, job_id, min_ntime, version, merkle_root) => {
                PoolMessage::NewMiningJob(
                    NewMiningJob { channel_id, job_id, min_ntime, version, merkle_root },
                )
            },
            WireMessage::SetNewPrevHash(channel_id, job_id, prev_hash, min_ntime, nbits) => {
                PoolMessage::SetNewPrevHash(
                    SetNewPrevHash { channel_id, job_id, prev_hash, min_ntime, nbits },
                )
            },
            WireMessage::SetTarget(channel_id, maximum_target) => PoolMessage::SetTarget(
                SetTarget { channel_id, maximum_target },
            ),
            WireMessage::SubmitSharesSuccess => PoolMessage::SubmitSharesSuccess,
            WireMessage::SubmitSharesError(code) => PoolMessage::SubmitSharesError(code),
            WireMessage::SetCustomMiningJob => PoolMessage::SetCustomMiningJob,
            WireMessage::ChannelOpened(id) => PoolMessage::ChannelOpened(id),
            WireMessage::ChannelRefused => PoolMessage::ChannelRefused,
            WireMessage::Other => PoolMessage::Other,
        }
    }
}

/// Calls `Mining::try_from` of `stratum_core::parsers_sv2` on the message type
/// and the payload. The contract claims only that the outcome depends on
/// these two alone. A message that does not decode gives `None`; of the
/// messages that do, the kinds this source reads keep their fields, and all
/// others become `Other`.
#[verifier::external_body]
pub(crate) fn decode_mining(message_type: u8, mut payload: Vec<u8>) -> (msg: Option<WireMessage>)
    ensures
        wire_view(msg) == decoded_mining(message_type, payload@),
{
    Some(match Mining::try_from((message_type, payload.as_mut_slice())).ok()? {
        Mining::NewMiningJob(m) => WireMessage::NewMiningJob(m.channel_id, m.job_id, m.min_ntime.into_inner(), m.version, m.merkle_root.to_owned_bytes()),
        Mining::SetNewPrevHash(m) => WireMessage::SetNewPrevHash(m.channel_id, m.job_id, m.prev_hash.to_owned_bytes(), m.min_ntime, m.nbits),
        Mining::SetTarget(m) => WireMessage::SetTarget(m.channel_id, m.maximum_target.to_owned_bytes()),
        Mining::SubmitSharesSuccess(_) => WireMessage::SubmitSharesSuccess,
        Mining::SubmitSharesError(m) => WireMessage::SubmitSharesError(m.error_code.to_owned_bytes()),
        Mining::SetCustomMiningJob(_) => WireMessage::SetCustomMiningJob,
        Mining::OpenStandardMiningChannelSuccess(m) => WireMessage::ChannelOpened(m.channel_id),
        Mining::OpenMiningChannelError(_) => WireMessage::ChannelRefused,
        _ => WireMessage::Other,
    })
}

/// Decodes a payload as a mining message of the given type.
pub fn decode_pool_message(message_type: u8, payload: Vec<u8>) -> (msg: Option<PoolMessage>)
    ensures
        super::messages::pool_message_view(msg) == decoded_mining(message_type, payload@),
{
    match decode_mining(message_type, payload) {
        Some(m) => Some(m.into_pool_message()),
        None => None,
    }
}

/// Calls `CommonMessages::try_from` of `stratum_core::parsers_sv2` on the
/// message type and the payload. The contract claims only that the outcome
/// depends on these two alone. A message that does not decode gives `None`.
#[verifier::external_body]
pub(crate) fn decode_common(message_type: u8, mut payload: Vec<u8>) -> (msg: Option<
    CommonMessage,
>)
    ensures
        msg == decoded_common(message_type, payload@),
{
    Some(match CommonMessages::try_from((message_type, payload.as_mut_slice())).ok()? {
        CommonMessages::SetupConnectionSuccess(m) => CommonMessage::SetupSuccess { used_version: m.used_version, flags: m.flags },
        CommonMessages::SetupConnectionError(_) => CommonMessage::SetupError,
        _ => CommonMessage::Other,
    })
}

} // verus!
