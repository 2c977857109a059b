//! Mining messages of Stratum V2 as plain values, and the conversions
//! between them and the job types of the scheduler.

use crate::bytes::read_block32;
use crate::job_source::{
    GeneralPurposeBits, JobTemplate, JobTemplateView, MerkleRootKind, MerkleRootKindView, Share,
    SourceError, Target, VersionTemplate,
};
use crate::text::{decimal, decimal_string, lemma_parse_decimal, parse_u32, parse_u32_spec};
use vstd::prelude::*;

verus! {

/// A job announced by the pool for a standard channel.
#[derive(Debug, Clone, PartialEq, Eq)]
pub struct NewMiningJob {
    pub channel_id: u32,
    pub job_id: u32,
    /// Smallest header time of the job; a future job has none.
    pub min_ntime: Option<u32>,
    pub version: u32,
    pub merkle_root: Vec<u8>,
}

/// What a [`NewMiningJob`] holds.
pub ghost struct NewMiningJobView {
    pub channel_id: u32,
    pub job_id: u32,
    pub min_ntime: Option<u32>,
    pub version: u32,
    pub merkle_root: Seq<u8>,
}

impl View for NewMiningJob {
    type V = NewMiningJobView;

    open spec fn view(&self) -> NewMiningJobView {
        NewMiningJobView {
            channel_id: self.channel_id,
            job_id: self.job_id,
            min_ntime: self.min_ntime,
            version: self.version,
            merkle_root: self.merkle_root@,
        }
    }
}

impl NewMiningJobView {
    /// A job without a time waits for its previous-block hash.
    pub open spec fn is_future(self) -> bool {
        self.min_ntime is None
    }
}

impl NewMiningJob {
    /// Whether the job waits for a `SetNewPrevHash` with its id.
    pub fn is_future(&self) -> (future: bool)
        ensures
            future == self@.is_future(),
    {
        self.min_ntime.is_none()
    }
}

/// The previous-block hash that activates a future job.
#[derive(Debug, Clone, PartialEq, Eq)]
pub struct SetNewPrevHash {
    pub channel_id: u32,
    pub job_id: u32,
    pub prev_hash: Vec<u8>,
    pub min_ntime: u32,
    pub nbits: u32,
}

/// What a [`SetNewPrevHash`] holds.
pub ghost struct SetNewPrevHashView {
    pub channel_id: u32,
    pub job_id: u32,
    pub prev_hash: Seq<u8>,
    pub min_ntime: u32,
    pub nbits: u32,
}

impl View for SetNewPrevHash {
    type V = SetNewPrevHashView;

    open spec fn view(&self) -> SetNewPrevHashView {
        SetNewPrevHashView {
            channel_id: self.channel_id,
            job_id: self.job_id,
            prev_hash: self.prev_hash@,
            min_ntime: self.min_ntime,
            nbits: self.nbits,
        }
    }
}

/// A new share target for a channel, as 32 little-endian bytes.
#[derive(Debug, Clone, PartialEq, Eq)]
pub struct SetTarget {
    pub channel_id: u32,
    pub maximum_target: Vec<u8>,
}

/// What a [`SetTarget`] holds.
pub ghost struct SetTargetView {
    pub channel_id: u32,
    pub maximum_target: Seq<u8>,
}

impl View for SetTarget {
    type V = SetTargetView;

    open spec fn view(&self) -> SetTargetView {
        SetTargetView { channel_id: self.channel_id, maximum_target: self.maximum_target@ }
    }
}

/// A mining message of the pool, as far as this source tells them apart.
#[derive(Debug, Clone, PartialEq, Eq)]
pub enum PoolMessage {
    NewMiningJob(NewMiningJob),
    SetNewPrevHash(SetNewPrevHash),
    SetTarget(SetTarget),
    /// The pool accepted shares.
    SubmitSharesSuccess,
    /// The pool rejected a share, with its error code.
    SubmitSharesError(Vec<u8>),
    /// A custom job, which has no place on a standard channel.
    SetCustomMiningJob,
    /// The pool opened the standard channel with this id.
    ChannelOpened(u32),
    /// The pool refused to open the channel.
    ChannelRefused,
    /// Any other mining message.
    Other,
}

/// What a [`PoolMessage`] holds.
pub ghost enum PoolMessageView {
    NewMiningJob(NewMiningJobView),
    SetNewPrevHash(SetNewPrevHashView),
    SetTarget(SetTargetView),
    SubmitSharesSuccess,
    SubmitSharesError(Seq<u8>),
    SetCustomMiningJob,
    ChannelOpened(u32),
    ChannelRefused,
    Other,
}

impl View for PoolMessage {
    type V = PoolMessageView;

    open spec fn view(&self) -> PoolMessageView {
        match self {
            PoolMessage::NewMiningJob(m) => PoolMessageView::NewMiningJob(m@),
            PoolMessage::SetNewPrevHash(m) => PoolMessageView::SetNewPrevHash(m@),
            PoolMessage::SetTarget(m) => PoolMessageView::SetTarget(m@),
            PoolMessage::SubmitSharesSuccess => PoolMessageView::SubmitSharesSuccess,
            PoolMessage::SubmitSharesError(code) => PoolMessageView::SubmitSharesError(code@),
            PoolMessage::SetCustomMiningJob => PoolMessageView::SetCustomMiningJob,
            PoolMessage::ChannelOpened(id) => PoolMessageView::ChannelOpened(*id),
            PoolMessage::ChannelRefused => PoolMessageView::ChannelRefused,
            PoolMessage::Other => PoolMessageView::Other,
        }
    }
}

/// View of a pool message that may be absent.
pub open spec fn pool_message_view(msg: Option<PoolMessage>) -> Option<PoolMessageView> {
    match msg {
        Some(m) => Some(m@),
        None => None,
    }
}

/// A common message of the pool, as far as this source tells them apart.
#[derive(Debug, Clone, Copy, PartialEq, Eq, Structural)]
pub enum CommonMessage {
    /// The pool accepted the connection setup.
    SetupSuccess { used_version: u16, flags: u32 },
    /// The pool refused the connection setup.
    SetupError,
    /// Any other common message.
    Other,
}

/// A share as it is submitted on a standard channel.
#[derive(Debug, Clone, Copy, PartialEq, Eq, Structural)]
pub struct SubmitSharesStandard {
    pub channel_id: u32,
    pub sequence_number: u32,
    pub job_id: u32,
    pub nonce: u32,
    pub ntime: u32,
    pub version: u32,
}

/// First of the general-purpose bits in a block version.
pub const GP_BITS_SHIFT: u32 = 13;

/// The bits that may be rolled under a version-rolling mask: bits 13 to 28
/// of the mask. Without a mask all sixteen may be rolled.
pub open spec fn rollable_bits(version_mask: Option<u32>) -> u16 {
    match version_mask {
        Some(mask) => ((mask >> 13) & 0xffff) as u16,
        None => 0xffff,
    }
}

/// The template that a job and its previous-block hash make, or the length
/// that is wrong. Merkle root, target and previous-block hash must each be
/// 32 bytes long, and are looked at in that order.
pub open spec fn template_spec(
    job: NewMiningJobView,
    prev_hash: SetNewPrevHashView,
    current_target: Seq<u8>,
    version_mask: Option<u32>,
) -> Result<JobTemplateView, SourceError> {
    if job.merkle_root.len() != 32 {
        Err(SourceError::InvalidMerkleRootLength)
    } else if current_target.len() != 32 {
        Err(SourceError::InvalidTargetLength)
    } else if prev_hash.prev_hash.len() != 32 {
        Err(SourceError::InvalidPrevHashLength)
    } else {
        Ok(
            JobTemplateView {
                id: decimal(job.job_id as nat),
                prev_blockhash: prev_hash.prev_hash,
                version: VersionTemplate {
                    base: job.version,
                    gp_bits: GeneralPurposeBits { mask: rollable_bits(version_mask) },
                },
                bits: prev_hash.nbits,
                share_target: current_target,
                time: prev_hash.min_ntime,
                merkle_root: MerkleRootKindView::Fixed(job.merkle_root),
            },
        )
    }
}

/// Convert a `NewMiningJob` and its `SetNewPrevHash` to a job template.
///
/// The id of the template is the job id in decimal, so that the id of a
/// share for this job reads back as the job id.
pub fn job_to_template(
    job: &NewMiningJob,
    prev_hash: &SetNewPrevHash,
    current_target: &[u8],
    version_mask: Option<u32>,
) -> (r: Result<JobTemplate, SourceError>)
    ensures
        match r {
            Ok(template) => template_spec(job@, prev_hash@, current_target@, version_mask) == Ok::<
                JobTemplateView,
                SourceError,
            >(template@) && parse_u32_spec(template@.id) == Some(job.job_id),
            Err(e) => template_spec(job@, prev_hash@, current_target@, version_mask) == Err::<
                JobTemplateView,
                SourceError,
            >(e),
        },
{
    if job.merkle_root.len() != 32 {
        return Err(SourceError::InvalidMerkleRootLength);
    }
    let merkle_root = read_block32(job.merkle_root.as_slice(), 0);
    if current_target.len() != 32 {
        return Err(SourceError::InvalidTargetLength);
    }
    let share_target = Target::from_le_bytes(read_block32(current_target, 0));
    if prev_hash.prev_hash.len() != 32 {
        return Err(SourceError::InvalidPrevHashLength);
    }
    let prev_blockhash = read_block32(prev_hash.prev_hash.as_slice(), 0);
    let gp_bits = match version_mask {
        Some(mask) => {
            assert((mask >> 13) & 0xffff <= 0xffff) by (bit_vector);
            let gp_mask = ((mask >> 13) & 0xffff) as u16;
            GeneralPurposeBits::new([(gp_mask / 0x100) as u8, (gp_mask % 0x100) as u8])
        },
        None => GeneralPurposeBits::full(),
    };
    let template = JobTemplate {
        id: decimal_string(job.job_id as u64),
        prev_blockhash,
        version: VersionTemplate::new(job.version, gp_bits),
        bits: prev_hash.nbits,
        share_target,
        time: prev_hash.min_ntime,
        merkle_root: MerkleRootKind::Fixed(merkle_root),
    };
    proof {
        lemma_parse_decimal(job.job_id);
        assert(merkle_root@ =~= job.merkle_root@);
        assert(share_target.le_bytes@ =~= current_target@);
        assert(prev_blockhash@ =~= prev_hash.prev_hash@);
    }
    Ok(template)
}

/// The submission that a share makes on a channel, or the data fault of a
/// job id that is not an unsigned 32-bit number.
pub open spec fn submit_spec(
    job_id: Seq<char>,
    nonce: u32,
    time: u32,
    version: u32,
    channel_id: u32,
    sequence_number: u32,
) -> Result<SubmitSharesStandard, SourceError> {
    match parse_u32_spec(job_id) {
        Some(id) => Ok(
            SubmitSharesStandard {
                channel_id,
                sequence_number,
                job_id: id,
                nonce,
                ntime: time,
                version,
            },
        ),
        None => Err(SourceError::InvalidJobId),
    }
}

/// Convert a share to the message that submits it.
pub fn share_to_submit(share: &Share, channel_id: u32, sequence_number: u32) -> (r: Result<
    SubmitSharesStandard,
    SourceError,
>)
    ensures
        r == submit_spec(
            share.job_id@,
            share.nonce,
            share.time,
            share.version,
            channel_id,
            sequence_number,
        ),
{
    match parse_u32(share.job_id.as_str()) {
        Some(job_id) => Ok(
            SubmitSharesStandard {
                channel_id,
                sequence_number,
                job_id,
                nonce: share.nonce,
                ntime: share.time,
                version: share.version,
            },
        ),
        None => Err(SourceError::InvalidJobId),
    }
}

/// The id that a template carries reads back as the job id it was made
/// from, for every job id.
pub proof fn lemma_template_id_round_trip(
    job: NewMiningJobView,
    prev_hash: SetNewPrevHashView,
    current_target: Seq<u8>,
    version_mask: Option<u32>,
)
    requires
        template_spec(job, prev_hash, current_target, version_mask) is Ok,
    ensures
        parse_u32_spec(template_spec(job, prev_hash, current_target, version_mask)->Ok_0.id)
            == Some(job.job_id),
{
    lemma_parse_decimal(job.job_id);
}

} // verus!
