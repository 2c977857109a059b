//! Stratum V2 job source.
//!
//! Stratum V2 activates a job in two steps: a `NewMiningJob` announces a
//! future job with its merkle root and version, and a `SetNewPrevHash` with
//! the same job id supplies the previous-block hash, the difficulty bits and
//! the time. When both are there, they are combined into a job template.
//!
//! The source here is the deciding half of the connection: it is handed what
//! arrived from the pool or from the scheduler, updates its protocol state,
//! and says what is to be sent or emitted. Reading and writing the
//! connection is left to its caller.

pub mod client;
pub mod messages;
pub mod state;
pub mod wire;

use crate::job_source::{
    event_option_view, ShareView, SourceCommand, SourceCommandView, SourceError, SourceEvent,
    SourceEventView,
};
use crate::job_source::JobTemplateView;
use messages::{
    job_to_template, share_to_submit, submit_spec, template_spec, NewMiningJob, NewMiningJobView,
    PoolMessage, PoolMessageView, SetNewPrevHash, SetNewPrevHashView, SetTarget,
    SubmitSharesStandard,
};
use state::{
    following, initial_state, is_kept, keep_largest, keyed_by_id, lemma_window_size,
    lemma_window_streaming, ProtocolState, ProtocolStateView,
};
use crate::text::decimal;
use vstd::prelude::*;
use wire::{decode_pool_message, decoded_mining};

verus! {

/// Stratum V2 pool configuration.
#[derive(Debug, Clone, PartialEq, Eq)]
pub struct StratumV2Config {
    pub url: String,
    pub worker: String,
    pub password: Option<String>,
    pub user_agent: String,
}

/// Number of future jobs that are kept.
pub const FUTURE_JOB_WINDOW: usize = 10;

/// The target of a channel that was given none yet: every bit set.
pub open spec fn default_target() -> Seq<u8> {
    Seq::new(32, |i: int| 0xffu8)
}

/// The target that the next activation uses.
pub open spec fn effective_target(s: ProtocolStateView) -> Seq<u8> {
    match s.current_target {
        Some(t) => t,
        None => default_target(),
    }
}

/// The pending previous-block hash names this job.
pub open spec fn prev_hash_names(s: ProtocolStateView, job_id: u32) -> bool {
    s.prev_hash matches Some(p) && p.job_id == job_id
}

/// What the activation of a job gives: a `ReplaceJob` with the template of
/// the job, when the job is among the future jobs and the pending
/// previous-block hash names it; nothing otherwise; a data fault when the
/// template cannot be made.
pub open spec fn activation_spec(s: ProtocolStateView, job_id: u32) -> Result<
    Option<SourceEventView>,
    SourceError,
> {
    if s.future_jobs.dom().contains(job_id) && prev_hash_names(s, job_id) {
        match template_spec(
            s.future_jobs[job_id],
            s.prev_hash->0,
            effective_target(s),
            s.version_mask,
        ) {
            Ok(t) => Ok(Some(SourceEventView::ReplaceJob(t))),
            Err(e) => Err(e),
        }
    } else {
        Ok(None)
    }
}

/// The state with its future jobs cut down to the window.
pub open spec fn cleaned(s: ProtocolStateView) -> ProtocolStateView {
    ProtocolStateView { future_jobs: keep_largest(s.future_jobs, FUTURE_JOB_WINDOW as nat), ..s }
}

/// The state with one more future job.
pub open spec fn stored(s: ProtocolStateView, job: NewMiningJobView) -> ProtocolStateView {
    ProtocolStateView { future_jobs: s.future_jobs.insert(job.job_id, job), ..s }
}

/// What a job that is to be mined at once gives: it is activated without
/// being stored. When the pending previous-block hash names it, that is a
/// `ReplaceJob` with the template of the two; otherwise nothing.
pub open spec fn immediate_spec(s: ProtocolStateView, job: NewMiningJobView) -> Result<
    Option<SourceEventView>,
    SourceError,
> {
    if prev_hash_names(s, job.job_id) {
        match template_spec(job, s.prev_hash->0, effective_target(s), s.version_mask) {
            Ok(t) => Ok(Some(SourceEventView::ReplaceJob(t))),
            Err(e) => Err(e),
        }
    } else {
        Ok(None)
    }
}

/// State and outcome after a `NewMiningJob`.
///
/// A future job is stored, and activated if the pending previous-block hash
/// names it. Any other job is activated at once, on the same condition,
/// without being stored. In both cases the future jobs are then cut down to
/// the window, unless a fault ended the handling before.
pub open spec fn new_job_spec(s: ProtocolStateView, job: NewMiningJobView) -> (
    ProtocolStateView,
    Result<Option<SourceEventView>, SourceError>,
) {
    let after = if job.is_future() {
        stored(s, job)
    } else {
        s
    };
    let outcome = if job.is_future() {
        if prev_hash_names(s, job.job_id) {
            activation_spec(after, job.job_id)
        } else {
            Ok(None)
        }
    } else {
        immediate_spec(s, job)
    };
    match outcome {
        Ok(_) => (cleaned(after), outcome),
        Err(_) => (after, outcome),
    }
}

/// State and outcome after a `SetNewPrevHash`: it takes the place of the
/// pending one, and the job it names is activated.
pub open spec fn prev_hash_spec(s: ProtocolStateView, prev_hash: SetNewPrevHashView) -> (
    ProtocolStateView,
    Result<Option<SourceEventView>, SourceError>,
) {
    let after = ProtocolStateView { prev_hash: Some(prev_hash), ..s };
    (after, activation_spec(after, prev_hash.job_id))
}

/// State after a `SetTarget`: the target takes the place of the current one.
pub open spec fn set_target_spec(s: ProtocolStateView, target: Seq<u8>) -> ProtocolStateView {
    ProtocolStateView { current_target: Some(target), ..s }
}

/// State and outcome after a share of the scheduler. Without an open channel
/// nothing happens, not even to the sequence numbers. With one, the next
/// sequence number is used up, also by a share whose job id is no number.
pub open spec fn submit_share_spec(s: ProtocolStateView, share: ShareView) -> (
    ProtocolStateView,
    Result<SubmitSharesStandard, SourceError>,
) {
    match s.channel_id {
        None => (s, Err(SourceError::NoChannel)),
        Some(channel_id) => (
            ProtocolStateView { sequence_number: following(s.sequence_number), ..s },
            submit_spec(
                share.job_id,
                share.nonce,
                share.time,
                share.version,
                channel_id,
                s.sequence_number,
            ),
        ),
    }
}

/// State after the pool opened a channel: the channel is recorded, unless
/// one was recorded before.
pub open spec fn channel_opened_spec(s: ProtocolStateView, channel_id: u32) -> ProtocolStateView {
    if s.channel_id is Some {
        s
    } else {
        ProtocolStateView { channel_id: Some(channel_id), ..s }
    }
}

/// What the source does about a message of the pool, besides changing its
/// state.
#[derive(Debug, Clone, PartialEq, Eq)]
pub enum Reaction {
    /// Nothing to do.
    Nothing,
    /// An event for the scheduler.
    Emit(SourceEvent),
    /// The pool accepted shares.
    ShareAccepted,
    /// The pool rejected a share, with this error code.
    ShareRejected(Vec<u8>),
    /// A custom job arrived on a standard channel and was ignored.
    CustomJobIgnored,
    /// A message that the main loop does not handle.
    Unhandled,
}

/// What a [`Reaction`] holds.
pub ghost enum ReactionView {
    Nothing,
    Emit(SourceEventView),
    ShareAccepted,
    ShareRejected(Seq<u8>),
    CustomJobIgnored,
    Unhandled,
}

impl View for Reaction {
    type V = ReactionView;

    open spec fn view(&self) -> ReactionView {
        match self {
            Reaction::Nothing => ReactionView::Nothing,
            Reaction::Emit(e) => ReactionView::Emit(e@),
            Reaction::ShareAccepted => ReactionView::ShareAccepted,
            Reaction::ShareRejected(code) => ReactionView::ShareRejected(code@),
            Reaction::CustomJobIgnored => ReactionView::CustomJobIgnored,
            Reaction::Unhandled => ReactionView::Unhandled,
        }
    }
}

/// The reaction that carries the outcome of a handler.
pub open spec fn reaction_of(outcome: Result<Option<SourceEventView>, SourceError>) -> Result<
    ReactionView,
    SourceError,
> {
    match outcome {
        Ok(Some(e)) => Ok(ReactionView::Emit(e)),
        Ok(None) => Ok(ReactionView::Nothing),
        Err(e) => Err(e),
    }
}

/// State and reaction after a mining message of the pool.
pub open spec fn mining_message_spec(s: ProtocolStateView, msg: PoolMessageView) -> (
    ProtocolStateView,
    Result<ReactionView, SourceError>,
) {
    match msg {
        PoolMessageView::NewMiningJob(job) => (
            new_job_spec(s, job).0,
            reaction_of(new_job_spec(s, job).1),
        ),
        PoolMessageView::SetNewPrevHash(p) => (
            prev_hash_spec(s, p).0,
            reaction_of(prev_hash_spec(s, p).1),
        ),
        PoolMessageView::SetTarget(t) => (
            set_target_spec(s, t.maximum_target),
            Ok(ReactionView::Nothing),
        ),
        PoolMessageView::SubmitSharesSuccess => (s, Ok(ReactionView::ShareAccepted)),
        PoolMessageView::SubmitSharesError(code) => (s, Ok(ReactionView::ShareRejected(code))),
        PoolMessageView::SetCustomMiningJob => (s, Ok(ReactionView::CustomJobIgnored)),
        _ => (s, Ok(ReactionView::Unhandled)),
    }
}

/// State and reaction after a frame of the pool, given what its payload
/// decodes to: a payload that decodes to nothing is a frame fault and leaves
/// the state alone.
pub open spec fn pool_frame_spec(s: ProtocolStateView, decoded: Option<PoolMessageView>) -> (
    ProtocolStateView,
    Result<ReactionView, SourceError>,
) {
    match decoded {
        Some(msg) => mining_message_spec(s, msg),
        None => (s, Err(SourceError::MalformedMessage)),
    }
}

/// View of the outcome of a handler.
pub open spec fn outcome_view(outcome: Result<Option<SourceEvent>, SourceError>) -> Result<
    Option<SourceEventView>,
    SourceError,
> {
    match outcome {
        Ok(e) => Ok(event_option_view(e)),
        Err(e) => Err(e),
    }
}

/// View of a reaction or the fault in its place.
pub open spec fn reaction_view(r: Result<Reaction, SourceError>) -> Result<
    ReactionView,
    SourceError,
> {
    match r {
        Ok(reaction) => Ok(reaction@),
        Err(e) => Err(e),
    }
}

/// Stratum V2 job source: the configuration of the pool and the state of
/// the protocol on one connection.
pub struct StratumV2Source {
    config: StratumV2Config,
    state: ProtocolState,
}

impl View for StratumV2Source {
    type V = ProtocolStateView;

    closed spec fn view(&self) -> ProtocolStateView {
        self.state@
    }
}

impl StratumV2Source {
    /// A source for a new connection.
    pub fn new(config: StratumV2Config) -> (source: Self)
        ensures
            source@ == initial_state(),
            source.config_spec() == config,
    {
        Self { config, state: ProtocolState::new() }
    }

    /// The configuration this source was made with.
    pub closed spec fn config_spec(&self) -> StratumV2Config {
        self.config
    }

    /// The configuration this source was made with.
    pub fn config(&self) -> (config: &StratumV2Config)
        ensures
            *config == self.config_spec(),
    {
        &self.config
    }

    /// The protocol state.
    pub fn state(&self) -> (state: &ProtocolState)
        ensures
            state@ == self@,
    {
        &self.state
    }

    /// Records the channel that the pool opened. The channel of a
    /// connection is set once: a source that has a channel keeps it.
    pub fn channel_opened(&mut self, channel_id: u32)
        ensures
            final(self)@ == channel_opened_spec(old(self)@, channel_id),
            final(self).config_spec() == old(self).config_spec(),
    {
        if self.state.channel_id.is_none() {
            self.state.channel_id = Some(channel_id);
        }
    }

    /// Records the version-rolling mask that the pool allows.
    pub fn set_version_mask(&mut self, version_mask: Option<u32>)
        ensures
            final(self)@ == (ProtocolStateView { version_mask, ..old(self)@ }),
            final(self).config_spec() == old(self).config_spec(),
    {
        self.state.version_mask = version_mask;
    }

    /// Handle a frame from the pool: decode its payload as a mining message
    /// of the given type and handle that.
    pub fn handle_pool_message(&mut self, message_type: u8, payload: Vec<u8>) -> (r: Result<
        Reaction,
        SourceError,
    >)
        ensures
            (final(self)@, reaction_view(r)) == pool_frame_spec(
                old(self)@,
                decoded_mining(message_type, payload@),
            ),
            final(self).config_spec() == old(self).config_spec(),
    {
        let decoded = decode_pool_message(message_type, payload);
        self.handle_decoded(decoded)
    }

    /// Handle what the payload of a frame decoded to.
    pub fn handle_decoded(&mut self, decoded: Option<PoolMessage>) -> (r: Result<
        Reaction,
        SourceError,
    >)
        ensures
            (final(self)@, reaction_view(r)) == pool_frame_spec(
                old(self)@,
                messages::pool_message_view(decoded),
            ),
            final(self).config_spec() == old(self).config_spec(),
    {
        match decoded {
            Some(msg) => self.handle_mining_message(msg),
            None => Err(SourceError::MalformedMessage),
        }
    }

    /// Handle a mining message of the pool.
    pub fn handle_mining_message(&mut self, msg: PoolMessage) -> (r: Result<Reaction, SourceError>)
        ensures
            (final(self)@, reaction_view(r)) == mining_message_spec(old(self)@, msg@),
            final(self).config_spec() == old(self).config_spec(),
    {
        match msg {
            PoolMessage::NewMiningJob(job) => match self.handle_new_mining_job(job) {
                Ok(Some(event)) => Ok(Reaction::Emit(event)),
                Ok(None) => Ok(Reaction::Nothing),
                Err(e) => Err(e),
            },
            PoolMessage::SetNewPrevHash(prev_hash) => match self.handle_set_new_prev_hash(
                prev_hash,
            ) {
                Ok(Some(event)) => Ok(Reaction::Emit(event)),
                Ok(None) => Ok(Reaction::Nothing),
                Err(e) => Err(e),
            },
            PoolMessage::SetTarget(target) => {
                self.handle_set_target(target);
                Ok(Reaction::Nothing)
            },
            PoolMessage::SubmitSharesSuccess => Ok(Reaction::ShareAccepted),
            PoolMessage::SubmitSharesError(code) => Ok(Reaction::ShareRejected(code)),
            PoolMessage::SetCustomMiningJob => Ok(Reaction::CustomJobIgnored),
            _ => Ok(Reaction::Unhandled),
        }
    }

    /// Handle `NewMiningJob` message.
    pub fn handle_new_mining_job(&mut self, job: NewMiningJob) -> (r: Result<
        Option<SourceEvent>,
        SourceError,
    >)
        ensures
            (final(self)@, outcome_view(r)) == new_job_spec(old(self)@, job@),
            r matches Ok(Some(event)) ==> event@ matches SourceEventView::ReplaceJob(t) && t.id
                == decimal(job.job_id as nat),
            final(self).config_spec() == old(self).config_spec(),
    {
        let event = if job.is_future() {
            let job_id = job.job_id;
            let named = match &self.state.prev_hash {
                Some(prev_hash) => prev_hash.job_id == job_id,
                None => false,
            };
            self.state.store_future_job(job);
            if named {
                match self.activate_job(job_id) {
                    Ok(event) => event,
                    Err(e) => {
                        return Err(e);
                    },
                }
            } else {
                None
            }
        } else {
            match &self.state.prev_hash {
                Some(prev_hash) => {
                    if prev_hash.job_id == job.job_id {
                        let default = [0xffu8; 32];
                        let target: &[u8] = match &self.state.current_target {
                            Some(t) => t.as_slice(),
                            None => default.as_slice(),
                        };
                        proof {
                            assert(default@ =~= default_target());
                        }
                        match job_to_template(&job, prev_hash, target, self.state.version_mask) {
                            Ok(template) => Some(SourceEvent::ReplaceJob(template)),
                            Err(e) => {
                                return Err(e);
                            },
                        }
                    } else {
                        None
                    }
                },
                None => None,
            }
        };
        self.state.clean_old_jobs(FUTURE_JOB_WINDOW);
        Ok(event)
    }

    /// Handle `SetNewPrevHash` message.
    pub fn handle_set_new_prev_hash(&mut self, prev_hash: SetNewPrevHash) -> (r: Result<
        Option<SourceEvent>,
        SourceError,
    >)
        ensures
            (final(self)@, outcome_view(r)) == prev_hash_spec(old(self)@, prev_hash@),
            r matches Ok(Some(event)) ==> event@ matches SourceEventView::ReplaceJob(t) && t.id
                == decimal(prev_hash.job_id as nat),
            final(self).config_spec() == old(self).config_spec(),
    {
        let job_id = prev_hash.job_id;
        self.state.prev_hash = Some(prev_hash);
        self.activate_job(job_id)
    }

    /// Activate a job when both its `NewMiningJob` and its `SetNewPrevHash`
    /// are there.
    pub fn activate_job(&self, job_id: u32) -> (r: Result<Option<SourceEvent>, SourceError>)
        ensures
            outcome_view(r) == activation_spec(self@, job_id),
            r matches Ok(Some(event)) ==> event@ matches SourceEventView::ReplaceJob(t) && t.id
                == decimal(job_id as nat),
    {
        let job = match self.state.get_future_job(job_id) {
            Some(j) => j,
            None => {
                return Ok(None);
            },
        };
        let prev_hash = match &self.state.prev_hash {
            Some(p) => {
                if p.job_id != job_id {
                    return Ok(None);
                }
                p
            },
            None => {
                return Ok(None);
            },
        };
        let default = [0xffu8; 32];
        let target: &[u8] = match &self.state.current_target {
            Some(t) => t.as_slice(),
            None => default.as_slice(),
        };
        proof {
            assert(default@ =~= default_target());
        }
        match job_to_template(job, prev_hash, target, self.state.version_mask) {
            Ok(template) => Ok(Some(SourceEvent::ReplaceJob(template))),
            Err(e) => Err(e),
        }
    }

    /// Handle `SetTarget` message.
    pub fn handle_set_target(&mut self, target: SetTarget)
        ensures
            final(self)@ == set_target_spec(old(self)@, target.maximum_target@),
            final(self).config_spec() == old(self).config_spec(),
    {
        self.state.current_target = Some(target.maximum_target);
    }

    /// Handle command from scheduler: the message that submits the share.
    pub fn handle_scheduler_command(&mut self, cmd: SourceCommand) -> (r: Result<
        SubmitSharesStandard,
        SourceError,
    >)
        ensures
            match cmd@ {
                SourceCommandView::SubmitShare(share) => (final(self)@, r) == submit_share_spec(
                    old(self)@,
                    share,
                ),
            },
            final(self).config_spec() == old(self).config_spec(),
    {
        match cmd {
            SourceCommand::SubmitShare(share) => {
                let channel_id = match self.state.channel_id {
                    Some(id) => id,
                    None => {
                        return Err(SourceError::NoChannel);
                    },
                };
                let sequence_number = self.state.next_sequence_number();
                share_to_submit(&share, channel_id, sequence_number)
            },
        }
    }
}

/// Once a channel is recorded it never changes: no message of the pool, no
/// share of the scheduler and no later channel opening touches it.
pub proof fn lemma_channel_is_set_once(
    s: ProtocolStateView,
    decoded: Option<PoolMessageView>,
    share: ShareView,
    channel_id: u32,
)
    ensures
        pool_frame_spec(s, decoded).0.channel_id == s.channel_id,
        submit_share_spec(s, share).0.channel_id == s.channel_id,
        s.channel_id is Some ==> channel_opened_spec(s, channel_id).channel_id == s.channel_id,
{
}

/// The state after a run of shares from the scheduler.
pub open spec fn after_shares(s: ProtocolStateView, shares: Seq<ShareView>) -> ProtocolStateView
    decreases shares.len(),
{
    if shares.len() == 0 {
        s
    } else {
        submit_share_spec(after_shares(s, shares.drop_last()), shares.last()).0
    }
}

/// Every share, sent or not, uses up one sequence number: on an open
/// channel, the share that comes after `n` others is sent with the number
/// that lies `n` above the first, counted modulo 2^32, on the same channel.
pub proof fn lemma_sequence_numbers_count_shares(
    s: ProtocolStateView,
    shares: Seq<ShareView>,
    share: ShareView,
)
    requires
        s.channel_id is Some,
    ensures
        after_shares(s, shares).channel_id == s.channel_id,
        after_shares(s, shares).sequence_number == (s.sequence_number + shares.len())
            % 0x1_0000_0000,
        submit_share_spec(after_shares(s, shares), share).1 matches Ok(m) ==> m.sequence_number
            == (s.sequence_number + shares.len()) % 0x1_0000_0000 && m.channel_id
            == s.channel_id->0,
    decreases shares.len(),
{
    if shares.len() > 0 {
        lemma_sequence_numbers_count_shares(s, shares.drop_last(), shares.last());
    }
}

/// On a fresh connection with an open channel the first share is sent with
/// sequence number 0, and of two shares that are sent one after the other
/// the second carries the number after that of the first.
pub proof fn lemma_sequence_numbers_follow(
    s: ProtocolStateView,
    first: ShareView,
    second: ShareView,
)
    requires
        submit_share_spec(s, first).1 is Ok,
        submit_share_spec(submit_share_spec(s, first).0, second).1 is Ok,
    ensures
        s.sequence_number == 0 ==> submit_share_spec(s, first).1->Ok_0.sequence_number == 0,
        submit_share_spec(submit_share_spec(s, first).0, second).1->Ok_0.sequence_number
            == following(submit_share_spec(s, first).1->Ok_0.sequence_number),
        s.sequence_number < u32::MAX ==> submit_share_spec(
            submit_share_spec(s, first).0,
            second,
        ).1->Ok_0.sequence_number == submit_share_spec(s, first).1->Ok_0.sequence_number + 1,
{
}

/// A previous-block hash activates the job it names, when that job waits in
/// the table under its id and the data are of the right lengths: the outcome
/// is one `ReplaceJob` whose id is the job id in decimal, the hash is the
/// pending one afterwards, and the table is as it was.
pub proof fn lemma_prev_hash_activates_waiting_job(
    s: ProtocolStateView,
    prev_hash: SetNewPrevHashView,
)
    requires
        s.future_jobs.dom().contains(prev_hash.job_id),
        keyed_by_id(s.future_jobs),
        s.future_jobs[prev_hash.job_id].merkle_root.len() == 32,
        effective_target(s).len() == 32,
        prev_hash.prev_hash.len() == 32,
    ensures
        prev_hash_spec(s, prev_hash).1 matches Ok(Some(SourceEventView::ReplaceJob(t))) && t.id
            == decimal(prev_hash.job_id as nat) && Ok::<JobTemplateView, SourceError>(t)
            == template_spec(
            s.future_jobs[prev_hash.job_id],
            prev_hash,
            effective_target(s),
            s.version_mask,
        ),
        prev_hash_spec(s, prev_hash).0 == (ProtocolStateView { prev_hash: Some(prev_hash), ..s }),
{
}

/// A job that the pending previous-block hash names is activated when it
/// arrives, future or not, when the data are of the right lengths: the
/// outcome is one `ReplaceJob` with the template of the two, whose id is the
/// job id in decimal. A future job is in the table afterwards, unless ten
/// larger ids are; any other job is not put there.
pub proof fn lemma_job_activates_on_pending_hash(s: ProtocolStateView, job: NewMiningJobView)
    requires
        prev_hash_names(s, job.job_id),
        job.merkle_root.len() == 32,
        effective_target(s).len() == 32,
        s.prev_hash->0.prev_hash.len() == 32,
    ensures
        new_job_spec(s, job).1 matches Ok(Some(SourceEventView::ReplaceJob(t))) && t.id
            == decimal(job.job_id as nat) && Ok::<JobTemplateView, SourceError>(t)
            == template_spec(job, s.prev_hash->0, effective_target(s), s.version_mask),
        new_job_spec(s, job).0 == cleaned(
            if job.is_future() {
                stored(s, job)
            } else {
                s
            },
        ),
{
}

/// Every job of the table stands under its own id, whatever arrives.
pub proof fn lemma_jobs_stay_under_their_ids(
    s: ProtocolStateView,
    decoded: Option<PoolMessageView>,
    share: ShareView,
)
    requires
        keyed_by_id(s.future_jobs),
    ensures
        keyed_by_id(initial_state().future_jobs),
        keyed_by_id(pool_frame_spec(s, decoded).0.future_jobs),
        keyed_by_id(submit_share_spec(s, share).0.future_jobs),
{
}

/// A future job and the previous-block hash that names it rendezvous in
/// either order of arrival: the first of the two gives nothing, the second
/// gives one `ReplaceJob` with the template of the two, and the state
/// afterwards is the same.
///
/// This is stated for a job id that is new to the state, for data of the
/// right lengths, and for a job that is still in the window when its hash
/// arrives after it.
pub proof fn lemma_rendezvous_in_either_order(
    s: ProtocolStateView,
    job: NewMiningJobView,
    prev_hash: SetNewPrevHashView,
)
    requires
        job.is_future(),
        job.job_id == prev_hash.job_id,
        !s.future_jobs.dom().contains(job.job_id),
        !prev_hash_names(s, job.job_id),
        template_spec(job, prev_hash, effective_target(s), s.version_mask) is Ok,
        is_kept(s.future_jobs.dom().insert(job.job_id), job.job_id, FUTURE_JOB_WINDOW as nat),
    ensures
        ({
            let replace = SourceEventView::ReplaceJob(
                template_spec(job, prev_hash, effective_target(s), s.version_mask)->Ok_0,
            );
            let job_first = new_job_spec(s, job);
            let then_hash = prev_hash_spec(job_first.0, prev_hash);
            let hash_first = prev_hash_spec(s, prev_hash);
            let then_job = new_job_spec(hash_first.0, job);
            &&& job_first.1 == Ok::<Option<SourceEventView>, SourceError>(None)
            &&& then_hash.1 == Ok::<Option<SourceEventView>, SourceError>(Some(replace))
            &&& hash_first.1 == Ok::<Option<SourceEventView>, SourceError>(None)
            &&& then_job.1 == Ok::<Option<SourceEventView>, SourceError>(Some(replace))
            &&& then_hash.0 == then_job.0
        }),
{
    let with_job = stored(s, job);
    assert(with_job.future_jobs.dom() =~= s.future_jobs.dom().insert(job.job_id));
    assert(cleaned(with_job).future_jobs.dom().contains(job.job_id));
    assert(cleaned(with_job).future_jobs[job.job_id] == job);
}

/// The table with every job of a list put in, one after the other.
pub open spec fn with_jobs(table: Map<u32, NewMiningJobView>, jobs: Seq<NewMiningJobView>) -> Map<
    u32,
    NewMiningJobView,
>
    decreases jobs.len(),
{
    if jobs.len() == 0 {
        table
    } else {
        with_jobs(table, jobs.drop_last()).insert(jobs.last().job_id, jobs.last())
    }
}

/// The state after a run of `NewMiningJob` messages.
pub open spec fn after_jobs(s: ProtocolStateView, jobs: Seq<NewMiningJobView>) -> ProtocolStateView
    decreases jobs.len(),
{
    if jobs.len() == 0 {
        s
    } else {
        new_job_spec(after_jobs(s, jobs.drop_last()), jobs.last()).0
    }
}

/// The future jobs after any run of future jobs are the ten with the
/// largest ids of all that were there or arrived: exactly ten once there
/// were that many, all of them before.
///
/// This is stated for jobs that the pending previous-block hash does not
/// name: a job that it names is activated on arrival, and a fault in that
/// ends the handling before the table is cut down.
pub proof fn lemma_future_jobs_are_the_largest(s: ProtocolStateView, jobs: Seq<NewMiningJobView>)
    requires
        s.future_jobs.dom().finite(),
        jobs.len() > 0,
        forall|i: int|
            0 <= i < jobs.len() ==> (#[trigger] jobs[i]).is_future() && !prev_hash_names(
                s,
                jobs[i].job_id,
            ),
    ensures
        after_jobs(s, jobs) == (ProtocolStateView {
            future_jobs: keep_largest(with_jobs(s.future_jobs, jobs), FUTURE_JOB_WINDOW as nat),
            ..s
        }),
        with_jobs(s.future_jobs, jobs).dom().finite(),
        after_jobs(s, jobs).future_jobs.dom().len() == if with_jobs(
            s.future_jobs,
            jobs,
        ).dom().len() <= FUTURE_JOB_WINDOW {
            with_jobs(s.future_jobs, jobs).dom().len()
        } else {
            FUTURE_JOB_WINDOW as nat
        },
    decreases jobs.len(),
{
    let earlier = jobs.drop_last();
    let last = jobs.last();
    let keep = FUTURE_JOB_WINDOW as nat;
    if earlier.len() == 0 {
        assert(with_jobs(s.future_jobs, earlier) == s.future_jobs);
        assert(after_jobs(s, earlier) == s);
    } else {
        assert forall|i: int| 0 <= i < earlier.len() implies (#[trigger] earlier[i]).is_future()
            && !prev_hash_names(s, earlier[i].job_id) by {
            assert(earlier[i] == jobs[i]);
        }
        lemma_future_jobs_are_the_largest(s, earlier);
        lemma_window_streaming(with_jobs(s.future_jobs, earlier), last.job_id, last, keep);
    }
    lemma_window_size(with_jobs(s.future_jobs, jobs), keep);
}

} // verus!
