//! Job sources: where mining work comes from and where shares go.
//!
//! A source hands the scheduler job templates as [`SourceEvent`]s and takes
//! found shares back as [`SourceCommand`]s.

pub mod stratum_v2;

use vstd::prelude::*;

verus! {

/// Why an operation of a job source failed.
#[derive(Debug, Clone, Copy, PartialEq, Eq, Structural)]
pub enum SourceError {
    /// The pool could not be reached within the allowed attempts.
    ConnectFailed,
    /// The encrypted session could not be set up.
    HandshakeFailed,
    /// The pool refused the connection setup.
    SetupRejected,
    /// The pool refused to open the mining channel.
    ChannelRejected,
    /// The pool answered with a message that has no place at this point.
    UnexpectedMessage,
    /// A share was to be submitted before a channel was open.
    NoChannel,
    /// A message of the pool could not be decoded.
    MalformedMessage,
    /// The job id of a share is not an unsigned 32-bit number.
    InvalidJobId,
    /// A merkle root is not 32 bytes long.
    InvalidMerkleRootLength,
    /// A previous-block hash is not 32 bytes long.
    InvalidPrevHashLength,
    /// A target is not 32 bytes long.
    InvalidTargetLength,
    /// The URL of the pool does not start with the scheme of this source.
    InvalidScheme,
    /// The URL of the pool names no usable host and port, or a name in the
    /// configuration is too long to be sent.
    InvalidEndpoint,
    /// A channel to the scheduler is closed.
    ChannelClosed,
}

/// The kinds of failure.
#[derive(Debug, Clone, Copy, PartialEq, Eq, Structural)]
pub enum ErrorKind {
    Transport,
    Protocol,
    Frame,
    Data,
    Config,
    Resource,
}

/// The kind of each failure.
pub open spec fn error_kind(e: SourceError) -> ErrorKind {
    match e {
        SourceError::ConnectFailed | SourceError::HandshakeFailed => ErrorKind::Transport,
        SourceError::SetupRejected
        | SourceError::ChannelRejected
        | SourceError::UnexpectedMessage
        | SourceError::NoChannel => ErrorKind::Protocol,
        SourceError::MalformedMessage => ErrorKind::Frame,
        SourceError::InvalidJobId
        | SourceError::InvalidMerkleRootLength
        | SourceError::InvalidPrevHashLength
        | SourceError::InvalidTargetLength => ErrorKind::Data,
        SourceError::InvalidScheme | SourceError::InvalidEndpoint => ErrorKind::Config,
        SourceError::ChannelClosed => ErrorKind::Resource,
    }
}

impl SourceError {
    /// The kind of this failure.
    pub fn kind(&self) -> (kind: ErrorKind)
        ensures
            kind == error_kind(*self),
    {
        match self {
            SourceError::ConnectFailed | SourceError::HandshakeFailed => ErrorKind::Transport,
            SourceError::SetupRejected
            | SourceError::ChannelRejected
            | SourceError::UnexpectedMessage
            | SourceError::NoChannel => ErrorKind::Protocol,
            SourceError::MalformedMessage => ErrorKind::Frame,
            SourceError::InvalidJobId
            | SourceError::InvalidMerkleRootLength
            | SourceError::InvalidPrevHashLength
            | SourceError::InvalidTargetLength => ErrorKind::Data,
            SourceError::InvalidScheme | SourceError::InvalidEndpoint => ErrorKind::Config,
            SourceError::ChannelClosed => ErrorKind::Resource,
        }
    }

    /// Whether the main loop goes on after this failure while it reads from
    /// the pool: it does after a frame or data fault, which concerns one
    /// message only, and ends on every other kind.
    pub fn is_recoverable(&self) -> (goes_on: bool)
        ensures
            goes_on == (error_kind(*self) == ErrorKind::Frame || error_kind(*self)
                == ErrorKind::Data),
    {
        match self.kind() {
            ErrorKind::Frame | ErrorKind::Data => true,
            _ => false,
        }
    }
}

/// The sixteen general-purpose bits of a block version that a miner may
/// roll: bits 13 to 28 of the version. A set bit may be rolled.
#[derive(Debug, Clone, Copy, PartialEq, Eq, Structural)]
pub struct GeneralPurposeBits {
    pub mask: u16,
}

impl GeneralPurposeBits {
    /// The mask whose big-endian bytes are given.
    pub fn new(bytes: [u8; 2]) -> (bits: Self)
        ensures
            bits.mask == bytes[0] as int * 0x100 + bytes[1] as int,
    {
        Self { mask: bytes[0] as u16 * 0x100 + bytes[1] as u16 }
    }

    /// Every general-purpose bit may be rolled.
    pub fn full() -> (bits: Self)
        ensures
            bits.mask == 0xffff,
    {
        Self { mask: 0xffff }
    }

}

/// A block version with the bits that may be rolled in it.
#[derive(Debug, Clone, Copy, PartialEq, Eq, Structural)]
pub struct VersionTemplate {
    pub base: u32,
    pub gp_bits: GeneralPurposeBits,
}

impl VersionTemplate {
    /// A template over the given base version.
    pub fn new(base: u32, gp_bits: GeneralPurposeBits) -> (template: Self)
        ensures
            template.base == base,
            template.gp_bits == gp_bits,
    {
        Self { base, gp_bits }
    }
}

/// Value of a little-endian byte string.
pub open spec fn le_value(bytes: Seq<u8>) -> nat
    decreases bytes.len(),
{
    if bytes.len() == 0 {
        0
    } else {
        bytes[0] as nat + 256 * le_value(bytes.drop_first())
    }
}

/// A 256-bit target, kept as its 32 little-endian bytes.
#[derive(Debug, Clone, Copy, PartialEq, Eq)]
pub struct Target {
    pub le_bytes: [u8; 32],
}

impl Target {
    /// The number that this target stands for.
    pub open spec fn value(&self) -> nat {
        le_value(self.le_bytes@)
    }

    /// The target with the given little-endian bytes.
    pub fn from_le_bytes(bytes: [u8; 32]) -> (target: Self)
        ensures
            target.le_bytes == bytes,
            target.value() == le_value(bytes@),
    {
        Self { le_bytes: bytes }
    }

    /// The little-endian bytes of this target.
    pub fn to_le_bytes(&self) -> (bytes: [u8; 32])
        ensures
            bytes == self.le_bytes,
    {
        self.le_bytes
    }
}

/// Recipe for a merkle root that depends on the extranonce a miner picks:
/// the two halves of the coinbase transaction, the fixed first extranonce,
/// the size of the second, and the branch of the merkle tree.
#[derive(Debug, Clone, PartialEq, Eq)]
pub struct MerkleRootTemplate {
    pub coinbase1: Vec<u8>,
    pub extranonce1: Vec<u8>,
    pub extranonce2_size: usize,
    pub coinbase2: Vec<u8>,
    pub merkle_branches: Vec<[u8; 32]>,
}

/// What a [`MerkleRootTemplate`] holds.
pub ghost struct MerkleRootTemplateView {
    pub coinbase1: Seq<u8>,
    pub extranonce1: Seq<u8>,
    pub extranonce2_size: usize,
    pub coinbase2: Seq<u8>,
    pub merkle_branches: Seq<[u8; 32]>,
}

impl View for MerkleRootTemplate {
    type V = MerkleRootTemplateView;

    open spec fn view(&self) -> MerkleRootTemplateView {
        MerkleRootTemplateView {
            coinbase1: self.coinbase1@,
            extranonce1: self.extranonce1@,
            extranonce2_size: self.extranonce2_size,
            coinbase2: self.coinbase2@,
            merkle_branches: self.merkle_branches@,
        }
    }
}

/// Where the merkle root of a job comes from.
#[derive(Debug, Clone, PartialEq, Eq)]
pub enum MerkleRootKind {
    /// The source gives the root itself.
    Fixed([u8; 32]),
    /// The root is computed from a coinbase transaction.
    Computed(MerkleRootTemplate),
}

/// What a [`MerkleRootKind`] holds.
pub ghost enum MerkleRootKindView {
    Fixed(Seq<u8>),
    Computed(MerkleRootTemplateView),
}

impl View for MerkleRootKind {
    type V = MerkleRootKindView;

    open spec fn view(&self) -> MerkleRootKindView {
        match self {
            MerkleRootKind::Fixed(root) => MerkleRootKindView::Fixed(root@),
            MerkleRootKind::Computed(template) => MerkleRootKindView::Computed(template@),
        }
    }
}

/// Work for the scheduler: everything of a block header but nonce and the
/// bits a miner rolls.
#[derive(Debug, Clone, PartialEq, Eq)]
pub struct JobTemplate {
    /// Identifier of the job at its source.
    pub id: String,
    pub prev_blockhash: [u8; 32],
    pub version: VersionTemplate,
    /// Compact encoding of the network target.
    pub bits: u32,
    pub share_target: Target,
    /// Base value of the header time.
    pub time: u32,
    pub merkle_root: MerkleRootKind,
}

/// What a [`JobTemplate`] holds.
pub ghost struct JobTemplateView {
    pub id: Seq<char>,
    pub prev_blockhash: Seq<u8>,
    pub version: VersionTemplate,
    pub bits: u32,
    /// Little-endian bytes of the share target.
    pub share_target: Seq<u8>,
    pub time: u32,
    pub merkle_root: MerkleRootKindView,
}

impl View for JobTemplate {
    type V = JobTemplateView;

    open spec fn view(&self) -> JobTemplateView {
        JobTemplateView {
            id: self.id@,
            prev_blockhash: self.prev_blockhash@,
            version: self.version,
            bits: self.bits,
            share_target: self.share_target.le_bytes@,
            time: self.time,
            merkle_root: self.merkle_root@,
        }
    }
}

/// A found nonce, as the scheduler reports it.
#[derive(Debug, Clone, PartialEq, Eq)]
pub struct Share {
    /// Identifier of the job that was worked on, as its template gave it.
    pub job_id: String,
    pub nonce: u32,
    /// Header time that the miner used.
    pub time: u32,
    /// Block version after rolling.
    pub version: u32,
    pub extranonce2: Option<Vec<u8>>,
}

/// What a [`Share`] holds.
pub ghost struct ShareView {
    pub job_id: Seq<char>,
    pub nonce: u32,
    pub time: u32,
    pub version: u32,
    pub extranonce2: Option<Seq<u8>>,
}

impl View for Share {
    type V = ShareView;

    open spec fn view(&self) -> ShareView {
        ShareView {
            job_id: self.job_id@,
            nonce: self.nonce,
            time: self.time,
            version: self.version,
            extranonce2: match self.extranonce2 {
                Some(e) => Some(e@),
                None => None,
            },
        }
    }
}

/// What the scheduler is told.
#[derive(Debug, Clone, PartialEq, Eq)]
pub enum SourceEvent {
    /// New template; work on earlier templates stays valid.
    UpdateJob(JobTemplate),
    /// New template; outstanding work is to be discarded.
    ReplaceJob(JobTemplate),
}

/// What a [`SourceEvent`] holds.
pub ghost enum SourceEventView {
    UpdateJob(JobTemplateView),
    ReplaceJob(JobTemplateView),
}

impl View for SourceEvent {
    type V = SourceEventView;

    open spec fn view(&self) -> SourceEventView {
        match self {
            SourceEvent::UpdateJob(t) => SourceEventView::UpdateJob(t@),
            SourceEvent::ReplaceJob(t) => SourceEventView::ReplaceJob(t@),
        }
    }
}

/// View of an event that may be absent.
pub open spec fn event_option_view(event: Option<SourceEvent>) -> Option<SourceEventView> {
    match event {
        Some(e) => Some(e@),
        None => None,
    }
}

/// What the scheduler asks for.
#[derive(Debug, Clone, PartialEq, Eq)]
pub enum SourceCommand {
    /// Submit a found share.
    SubmitShare(Share),
}

/// What a [`SourceCommand`] holds.
pub ghost enum SourceCommandView {
    SubmitShare(ShareView),
}

impl View for SourceCommand {
    type V = SourceCommandView;

    open spec fn view(&self) -> SourceCommandView {
        match self {
            SourceCommand::SubmitShare(share) => SourceCommandView::SubmitShare(share@),
        }
    }
}

} // verus!
