//! Assembly of BM13xx serial frames from a captured byte stream.
//!
//! Each direction of the link has its own assembler. Bytes arrive with a
//! timestamp in whole microseconds since the start of the capture.

use std::collections::VecDeque;
use vstd::prelude::*;

verus! {

/// Direction of serial communication.
#[derive(Debug, Clone, Copy, PartialEq, Eq, Structural)]
pub enum Direction {
    /// Host to chip (CI channel).
    HostToChip,
    /// Chip to host (RO channel).
    ChipToHost,
}

/// Capture channel a byte was seen on.
#[derive(Debug, Clone, Copy, PartialEq, Eq, Structural)]
pub enum Channel {
    /// Command input of the chip chain.
    CI,
    /// Response output of the chip chain.
    RO,
}

/// Direction of the traffic on a capture channel.
pub open spec fn channel_direction(channel: Channel) -> Direction {
    match channel {
        Channel::CI => Direction::HostToChip,
        Channel::RO => Direction::ChipToHost,
    }
}

impl From<Channel> for Direction {
    fn from(channel: Channel) -> (direction: Direction) {
        match channel {
            Channel::CI => Direction::HostToChip,
            Channel::RO => Direction::ChipToHost,
        }
    }
}

impl vstd::std_specs::convert::FromSpecImpl<Channel> for Direction {
    open spec fn obeys_from_spec() -> bool {
        true
    }

    open spec fn from_spec(channel: Channel) -> Direction {
        channel_direction(channel)
    }
}

/// One captured byte.
#[derive(Debug, Clone, Copy, PartialEq, Eq)]
pub struct SerialEvent {
    /// Microseconds since the start of the capture.
    pub timestamp: u64,
    pub channel: Channel,
    pub data: u8,
    /// The capture flagged a framing or parity error on this byte.
    pub error: bool,
}

/// Assembled serial frame.
#[derive(Debug, Clone, PartialEq, Eq)]
pub struct SerialFrame {
    pub direction: Direction,
    pub start_time: u64,
    pub end_time: u64,
    pub data: Vec<u8>,
    pub has_errors: bool,
}

/// What a [`SerialFrame`] holds.
pub ghost struct SerialFrameView {
    pub direction: Direction,
    pub start_time: u64,
    pub end_time: u64,
    pub data: Seq<u8>,
    pub has_errors: bool,
}

impl View for SerialFrame {
    type V = SerialFrameView;

    open spec fn view(&self) -> SerialFrameView {
        SerialFrameView {
            direction: self.direction,
            start_time: self.start_time,
            end_time: self.end_time,
            data: self.data@,
            has_errors: self.has_errors,
        }
    }
}

/// View of a frame that may be absent.
pub open spec fn frame_option_view(frame: Option<SerialFrame>) -> Option<SerialFrameView> {
    match frame {
        Some(f) => Some(f@),
        None => None,
    }
}

/// Frame assembly state.
#[derive(Debug, Clone, PartialEq, Eq)]
enum AssemblyState {
    /// Waiting for frame start.
    Idle,
    /// Found first preamble byte, at the given time.
    FoundFirst(u64),
    /// Collecting frame data.
    Collecting { start_time: u64, data: Vec<u8>, expected_len: Option<usize> },
}

/// What an assembler remembers between bytes.
pub ghost enum AssemblyStateView {
    Idle,
    FoundFirst(u64),
    Collecting { start_time: u64, data: Seq<u8>, expected_len: Option<usize> },
}

impl View for AssemblyState {
    type V = AssemblyStateView;

    closed spec fn view(&self) -> AssemblyStateView {
        match self {
            AssemblyState::Idle => AssemblyStateView::Idle,
            AssemblyState::FoundFirst(t) => AssemblyStateView::FoundFirst(*t),
            AssemblyState::Collecting { start_time, data, expected_len } => {
                AssemblyStateView::Collecting {
                    start_time: *start_time,
                    data: data@,
                    expected_len: *expected_len,
                }
            },
        }
    }
}

/// Longest silence between two bytes of one frame, in microseconds.
pub const BYTE_TIMEOUT: u64 = 1000;

/// First byte of the preamble in a direction.
pub open spec fn first_preamble(direction: Direction) -> u8 {
    match direction {
        Direction::HostToChip => 0x55,
        Direction::ChipToHost => 0xAA,
    }
}

/// Second byte of the preamble in a direction.
pub open spec fn second_preamble(direction: Direction) -> u8 {
    match direction {
        Direction::HostToChip => 0xAA,
        Direction::ChipToHost => 0x55,
    }
}

/// Whether the bytes collected so far make a whole frame. A host frame is
/// whole once it has as many bytes as its length byte announced. A chip frame
/// announces no length: it is taken as whole at seven bytes or more, when its
/// length is at least twenty or one of the usual 7, 9, 10 and 11.
pub open spec fn frame_complete(
    direction: Direction,
    data: Seq<u8>,
    expected_len: Option<usize>,
) -> bool {
    match direction {
        Direction::HostToChip => match expected_len {
            Some(len) => data.len() >= len,
            None => false,
        },
        Direction::ChipToHost => data.len() >= 7 && (data.len() >= 20 || data.len() == 7
            || data.len() == 9 || data.len() == 10 || data.len() == 11),
    }
}

/// The state after a byte that arrives while no frame is open.
pub open spec fn step_idle(direction: Direction, byte: u8, timestamp: u64) -> AssemblyStateView {
    if byte == first_preamble(direction) {
        AssemblyStateView::FoundFirst(timestamp)
    } else {
        AssemblyStateView::Idle
    }
}

/// The state after one byte, and the frame that this byte completed, if any.
///
/// A byte that does not continue a half-seen preamble is looked at again as
/// a possible first preamble byte. The length byte of a host frame is its
/// fourth byte. A completed frame carries the error flag of its last byte.
pub open spec fn step_byte(
    direction: Direction,
    state: AssemblyStateView,
    byte: u8,
    timestamp: u64,
    has_error: bool,
) -> (AssemblyStateView, Option<SerialFrameView>) {
    match state {
        AssemblyStateView::Idle => (step_idle(direction, byte, timestamp), None),
        AssemblyStateView::FoundFirst(start_time) => {
            if byte == second_preamble(direction) {
                (
                    AssemblyStateView::Collecting {
                        start_time,
                        data: seq![first_preamble(direction), byte],
                        expected_len: None,
                    },
                    None,
                )
            } else {
                (step_idle(direction, byte, timestamp), None)
            }
        },
        AssemblyStateView::Collecting { start_time, data, expected_len } => {
            let data = data.push(byte);
            let expected_len = if direction == Direction::HostToChip && data.len() == 4
                && expected_len is None {
                Some(byte as usize)
            } else {
                expected_len
            };
            if frame_complete(direction, data, expected_len) {
                (
                    AssemblyStateView::Idle,
                    Some(
                        SerialFrameView {
                            direction,
                            start_time,
                            end_time: timestamp,
                            data,
                            has_errors: has_error,
                        },
                    ),
                )
            } else {
                (AssemblyStateView::Collecting { start_time, data, expected_len }, None)
            }
        },
    }
}

/// More than [`BYTE_TIMEOUT`] passed between the last byte and this one.
pub open spec fn gap_exceeded(last_event_time: u64, timestamp: u64) -> bool {
    timestamp - last_event_time > BYTE_TIMEOUT
}

/// What a [`FrameAssembler`] holds.
pub ghost struct FrameAssemblerView {
    pub direction: Direction,
    pub state: AssemblyStateView,
    pub last_event_time: u64,
}

/// The unfinished frame of an assembler, marked as errored and ending at the
/// last byte seen; none unless bytes are being collected.
pub open spec fn pending_frame(a: FrameAssemblerView) -> Option<SerialFrameView> {
    match a.state {
        AssemblyStateView::Collecting { start_time, data, expected_len } => Some(
            SerialFrameView {
                direction: a.direction,
                start_time,
                end_time: a.last_event_time,
                data,
                has_errors: true,
            },
        ),
        _ => None,
    }
}

/// The assembler after one captured byte, and the frame it gave out.
///
/// A byte that comes too late after its predecessor closes the unfinished
/// frame as errored and is itself read as a possible frame start. Otherwise
/// the byte continues the assembly.
pub open spec fn process_spec(a: FrameAssemblerView, event: SerialEvent) -> (
    FrameAssemblerView,
    Option<SerialFrameView>,
) {
    if gap_exceeded(a.last_event_time, event.timestamp) && pending_frame(a) is Some {
        (
            FrameAssemblerView {
                direction: a.direction,
                state: step_idle(a.direction, event.data, event.timestamp),
                last_event_time: event.timestamp,
            },
            pending_frame(a),
        )
    } else {
        let (state, frame) = step_byte(
            a.direction,
            a.state,
            event.data,
            event.timestamp,
            event.error,
        );
        (
            FrameAssemblerView { direction: a.direction, state, last_event_time: event.timestamp },
            frame,
        )
    }
}

/// An assembler that has seen nothing yet.
pub open spec fn idle_assembler(direction: Direction) -> FrameAssemblerView {
    FrameAssemblerView { direction, state: AssemblyStateView::Idle, last_event_time: 0 }
}

/// What holds of the state of an assembler at all times: while bytes are
/// collected, they start with the preamble of the direction and are fewer
/// than a whole frame; on the host side the expected length is known from
/// the fourth byte on, and it is that byte.
pub open spec fn state_is_consistent(direction: Direction, state: AssemblyStateView) -> bool {
    state matches AssemblyStateView::Collecting { data, expected_len, .. } ==> {
        &&& data.len() >= 2
        &&& data[0] == first_preamble(direction)
        &&& data[1] == second_preamble(direction)
        &&& match direction {
            Direction::HostToChip => if data.len() < 4 {
                expected_len is None
            } else {
                expected_len == Some(data[3] as usize) && data.len() < data[3]
            },
            Direction::ChipToHost => data.len() < 7,
        }
    }
}

/// The length at which a frame is complete: on the host side what the
/// length byte says, but no less than the four bytes up to that byte; on the
/// chip side seven bytes.
pub open spec fn completed_len(direction: Direction, data: Seq<u8>) -> nat {
    match direction {
        Direction::HostToChip => if data[3] >= 4 {
            data[3] as nat
        } else {
            4
        },
        Direction::ChipToHost => 7,
    }
}

/// The frame is of the given direction and starts with its preamble.
pub open spec fn starts_with_preamble(direction: Direction, frame: Option<SerialFrameView>) -> bool {
    frame matches Some(f) ==> {
        &&& f.direction == direction
        &&& f.data.len() >= 2
        &&& f.data[0] == first_preamble(direction)
        &&& f.data[1] == second_preamble(direction)
    }
}

/// Frame assembler for a single channel.
pub struct FrameAssembler {
    direction: Direction,
    state: AssemblyState,
    last_event_time: u64,
}

impl View for FrameAssembler {
    type V = FrameAssemblerView;

    closed spec fn view(&self) -> FrameAssemblerView {
        FrameAssemblerView {
            direction: self.direction,
            state: self.state@,
            last_event_time: self.last_event_time,
        }
    }
}

fn first_preamble_byte(direction: Direction) -> (b: u8)
    ensures
        b == first_preamble(direction),
{
    match direction {
        Direction::HostToChip => 0x55,
        Direction::ChipToHost => 0xAA,
    }
}

fn second_preamble_byte(direction: Direction) -> (b: u8)
    ensures
        b == second_preamble(direction),
{
    match direction {
        Direction::HostToChip => 0xAA,
        Direction::ChipToHost => 0x55,
    }
}

fn is_complete(direction: Direction, len: usize, expected_len: Option<usize>) -> (done: bool)
    ensures
        forall|data: Seq<u8>|
            data.len() == len ==> done == #[trigger] frame_complete(direction, data, expected_len),
{
    match direction {
        Direction::HostToChip => match expected_len {
            Some(expected) => len >= expected,
            None => false,
        },
        Direction::ChipToHost => len >= 7 && (len >= 20 || len == 7 || len == 9 || len == 10
            || len == 11),
    }
}

impl FrameAssembler {
    #[verifier::type_invariant]
    spec fn consistent(&self) -> bool {
        state_is_consistent(self.direction, self.state@)
    }

    /// Creates an assembler that waits for a frame start.
    pub fn new(direction: Direction) -> (assembler: Self)
        ensures
            assembler@ == idle_assembler(direction),
    {
        Self { direction, state: AssemblyState::Idle, last_event_time: 0 }
    }

    /// Direction this assembler reads.
    pub fn direction(&self) -> (direction: Direction)
        ensures
            direction == self@.direction,
    {
        self.direction
    }

    /// No preamble byte has been seen since the last frame.
    pub fn is_idle(&self) -> (idle: bool)
        ensures
            idle == (self@.state is Idle),
    {
        match &self.state {
            AssemblyState::Idle => true,
            _ => false,
        }
    }

    /// Processes a serial event and gives out the frame it completed or
    /// cut short, if any.
    pub fn process(&mut self, event: &SerialEvent) -> (frame: Option<SerialFrame>)
        ensures
            (final(self)@, frame_option_view(frame)) == process_spec(old(self)@, *event),
            starts_with_preamble(old(self)@.direction, frame_option_view(frame)),
    {
        proof {
            use_type_invariant(&*self);
            lemma_assembly_is_consistent(self@, *event);
        }
        if event.timestamp > self.last_event_time && event.timestamp - self.last_event_time
            > BYTE_TIMEOUT {
            let pending = self.timeout();
            if pending.is_some() {
                self.last_event_time = event.timestamp;
                let _ = self.process_byte(event.data, event.timestamp, event.error);
                return pending;
            }
        }
        self.last_event_time = event.timestamp;
        self.process_byte(event.data, event.timestamp, event.error)
    }

    /// Processes a single byte.
    fn process_byte(&mut self, byte: u8, timestamp: u64, has_error: bool) -> (frame: Option<
        SerialFrame,
    >)
        ensures
            final(self).direction == old(self).direction,
            final(self).last_event_time == old(self).last_event_time,
            (final(self).state@, frame_option_view(frame)) == step_byte(
                old(self).direction,
                old(self).state@,
                byte,
                timestamp,
                has_error,
            ),
    {
        proof {
            use_type_invariant(&*self);
            lemma_assembly_is_consistent(
                self@,
                SerialEvent { timestamp, channel: Channel::CI, data: byte, error: has_error },
            );
        }
        let mut state = AssemblyState::Idle;
        core::mem::swap(&mut self.state, &mut state);
        match state {
            AssemblyState::Idle => {
                if byte == first_preamble_byte(self.direction) {
                    self.state = AssemblyState::FoundFirst(timestamp);
                }
                None
            },
            AssemblyState::FoundFirst(start_time) => {
                if byte == second_preamble_byte(self.direction) {
                    let mut data: Vec<u8> = Vec::new();
                    data.push(first_preamble_byte(self.direction));
                    data.push(byte);
                    proof {
                        assert(data@ == seq![first_preamble(self.direction), byte]);
                    }
                    self.state = AssemblyState::Collecting { start_time, data, expected_len: None };
                } else if byte == first_preamble_byte(self.direction) {
                    self.state = AssemblyState::FoundFirst(timestamp);
                }
                None
            },
            AssemblyState::Collecting { start_time, data, expected_len } => {
                let mut data = data;
                data.push(byte);
                let host = match self.direction {
                    Direction::HostToChip => true,
                    Direction::ChipToHost => false,
                };
                let expected_len = if host && data.len() == 4 && expected_len.is_none() {
                    Some(byte as usize)
                } else {
                    expected_len
                };
                if is_complete(self.direction, data.len(), expected_len) {
                    Some(
                        SerialFrame {
                            direction: self.direction,
                            start_time,
                            end_time: timestamp,
                            data,
                            has_errors: has_error,
                        },
                    )
                } else {
                    self.state = AssemblyState::Collecting { start_time, data, expected_len };
                    None
                }
            },
        }
    }

    /// Handles a timeout: takes the unfinished frame out, if there is one,
    /// and waits for a frame start again.
    fn timeout(&mut self) -> (frame: Option<SerialFrame>)
        ensures
            frame_option_view(frame) == pending_frame(old(self)@),
            final(self).direction == old(self).direction,
            final(self).last_event_time == old(self).last_event_time,
            frame is Some ==> final(self).state@ is Idle,
            frame is None ==> final(self).state@ == old(self).state@,
    {
        proof {
            use_type_invariant(&*self);
        }
        let mut state = AssemblyState::Idle;
        core::mem::swap(&mut self.state, &mut state);
        match state {
            AssemblyState::Collecting { start_time, data, expected_len } => Some(
                SerialFrame {
                    direction: self.direction,
                    start_time,
                    end_time: self.last_event_time,
                    data,
                    has_errors: true,
                },
            ),
            other => {
                self.state = other;
                None
            },
        }
    }

    /// Flushes any pending frame (call at end of capture): the unfinished
    /// frame comes out as errored, and the assembler waits for a frame start.
    pub fn flush(&mut self) -> (frame: Option<SerialFrame>)
        ensures
            frame_option_view(frame) == pending_frame(old(self)@),
            final(self)@ == flushed(old(self)@),
            starts_with_preamble(old(self)@.direction, frame_option_view(frame)),
    {
        proof {
            use_type_invariant(&*self);
        }
        let frame = self.timeout();
        self.state = AssemblyState::Idle;
        frame
    }
}

/// Views of the frames in a queue, oldest first.
pub open spec fn frame_views(frames: Seq<SerialFrame>) -> Seq<SerialFrameView> {
    frames.map_values(|f: SerialFrame| f@)
}

/// What a [`MultiChannelAssembler`] holds.
pub ghost struct MultiChannelView {
    pub ci: FrameAssemblerView,
    pub ro: FrameAssemblerView,
    /// Frames assembled and not yet taken, oldest first.
    pub frames: Seq<SerialFrameView>,
}

/// A queue with one more frame at its end, if there is one to add.
pub open spec fn with_frame(frames: Seq<SerialFrameView>, frame: Option<SerialFrameView>) -> Seq<
    SerialFrameView,
> {
    match frame {
        Some(f) => frames.push(f),
        None => frames,
    }
}

/// The assembler pair after one captured byte: the byte goes to the
/// assembler of its channel, and a frame that comes out joins the queue.
pub open spec fn multi_process_spec(m: MultiChannelView, event: SerialEvent) -> MultiChannelView {
    match event.channel {
        Channel::CI => {
            let (ci, frame) = process_spec(m.ci, event);
            MultiChannelView { ci, ro: m.ro, frames: with_frame(m.frames, frame) }
        },
        Channel::RO => {
            let (ro, frame) = process_spec(m.ro, event);
            MultiChannelView { ci: m.ci, ro, frames: with_frame(m.frames, frame) }
        },
    }
}

/// An assembler that has been flushed.
pub open spec fn flushed(a: FrameAssemblerView) -> FrameAssemblerView {
    FrameAssemblerView {
        direction: a.direction,
        state: AssemblyStateView::Idle,
        last_event_time: a.last_event_time,
    }
}

/// Multi-channel frame assembler.
pub struct MultiChannelAssembler {
    ci_assembler: FrameAssembler,
    ro_assembler: FrameAssembler,
    frames: VecDeque<SerialFrame>,
}

impl View for MultiChannelAssembler {
    type V = MultiChannelView;

    closed spec fn view(&self) -> MultiChannelView {
        MultiChannelView {
            ci: self.ci_assembler@,
            ro: self.ro_assembler@,
            frames: frame_views(self.frames@),
        }
    }
}

impl MultiChannelAssembler {
    /// Creates a pair of idle assemblers with an empty queue.
    pub fn new() -> (m: Self)
        ensures
            m@.ci == idle_assembler(Direction::HostToChip),
            m@.ro == idle_assembler(Direction::ChipToHost),
            m@.frames == Seq::<SerialFrameView>::empty(),
    {
        let m = Self {
            ci_assembler: FrameAssembler::new(Direction::HostToChip),
            ro_assembler: FrameAssembler::new(Direction::ChipToHost),
            frames: VecDeque::new(),
        };
        proof {
            assert(frame_views(m.frames@) == Seq::<SerialFrameView>::empty());
        }
        m
    }

    /// Processes a serial event.
    pub fn process(&mut self, event: &SerialEvent)
        ensures
            final(self)@ == multi_process_spec(old(self)@, *event),
    {
        let frame = match event.channel {
            Channel::CI => self.ci_assembler.process(event),
            Channel::RO => self.ro_assembler.process(event),
        };
        self.enqueue(frame);
    }

    fn enqueue(&mut self, frame: Option<SerialFrame>)
        ensures
            final(self).ci_assembler == old(self).ci_assembler,
            final(self).ro_assembler == old(self).ro_assembler,
            frame_views(final(self).frames@) == with_frame(
                frame_views(old(self).frames@),
                frame_option_view(frame),
            ),
    {
        if let Some(f) = frame {
            self.frames.push_back(f);
            proof {
                assert(frame_views(self.frames@) == frame_views(old(self).frames@).push(f@));
            }
        }
    }

    /// Takes the oldest assembled frame out of the queue.
    pub fn next_frame(&mut self) -> (frame: Option<SerialFrame>)
        ensures
            final(self)@.ci == old(self)@.ci,
            final(self)@.ro == old(self)@.ro,
            old(self)@.frames.len() == 0 ==> frame is None && final(self)@.frames
                == old(self)@.frames,
            old(self)@.frames.len() > 0 ==> frame_option_view(frame) == Some(
                old(self)@.frames[0],
            ) && final(self)@.frames == old(self)@.frames.drop_first(),
    {
        let frame = self.frames.pop_front();
        proof {
            if old(self).frames@.len() > 0 {
                assert(frame_views(self.frames@) == frame_views(old(self).frames@).drop_first());
            }
        }
        frame
    }

    /// Flushes all pending frames: first the host side, then the chip side.
    pub fn flush(&mut self)
        ensures
            final(self)@ == (MultiChannelView {
                ci: flushed(old(self)@.ci),
                ro: flushed(old(self)@.ro),
                frames: with_frame(
                    with_frame(old(self)@.frames, pending_frame(old(self)@.ci)),
                    pending_frame(old(self)@.ro),
                ),
            }),
    {
        let ci = self.ci_assembler.flush();
        self.enqueue(ci);
        let ro = self.ro_assembler.flush();
        self.enqueue(ro);
    }
}

/// An assembler that has seen nothing is in a consistent state, and every
/// byte keeps it so. Every frame that comes out starts with the preamble of
/// the direction. A frame that a byte completes has exactly the length at
/// which a frame is complete.
pub proof fn lemma_assembly_is_consistent(a: FrameAssemblerView, event: SerialEvent)
    requires
        state_is_consistent(a.direction, a.state),
    ensures
        state_is_consistent(a.direction, idle_assembler(a.direction).state),
        process_spec(a, event).0.direction == a.direction,
        state_is_consistent(a.direction, process_spec(a, event).0.state),
        starts_with_preamble(a.direction, process_spec(a, event).1),
        starts_with_preamble(a.direction, pending_frame(a)),
        step_byte(a.direction, a.state, event.data, event.timestamp, event.error).1 matches Some(
            f,
        ) ==> f.data.len() == completed_len(a.direction, f.data),
{
    match a.state {
        AssemblyStateView::Collecting { start_time, data, expected_len } => {
            let more = data.push(event.data);
            assert(more[0] == data[0] && more[1] == data[1]);
            if more.len() > 3 {
                if data.len() > 3 {
                    assert(more[3] == data[3]);
                } else {
                    assert(more[3] == event.data);
                }
            }
        },
        _ => {},
    }
}

} // verus!
