//! Output formatting for dissected frames: one line for each event.

use crate::dissect::{
    crc_label, CrcStatus, DissectedFrame, DissectedFrameView, DissectedI2c, DissectedI2cView,
    FrameContent, FrameContentView, I2cDevice,
};
use crate::paint::{paint_green, paint_red};
use crate::protocol::{command_text, response_text};
use crate::serial::Direction;
use crate::text::{decimal, hex_digit, hex_fixed, hex_spaced, push_decimal, push_hex2, push_hex_joined};
use vstd::prelude::*;
use vstd::string::*;

verus! {

/// Output formatter configuration.
#[derive(Debug, Clone, Copy, PartialEq, Eq)]
pub struct OutputConfig {
    /// Show the raw bytes of each event in hexadecimal.
    pub show_raw_hex: bool,
    /// Show times relative to `start_time`.
    pub use_relative_time: bool,
    /// The time that relative times count from, in microseconds.
    pub start_time: Option<u64>,
    /// Colour faults and checksum labels.
    pub use_color: bool,
}

/// The configuration that is used when none is given: absolute times, no raw
/// bytes, colours.
pub open spec fn default_config() -> OutputConfig {
    OutputConfig { show_raw_hex: false, use_relative_time: false, start_time: None, use_color: true }
}

impl Default for OutputConfig {
    fn default() -> (config: Self)
        ensures
            config == default_config(),
    {
        Self { show_raw_hex: false, use_relative_time: false, start_time: None, use_color: true }
    }
}

/// Decimal rendering in exactly `width` digits, padded with zeros on the
/// left; digits above `width` are cut off.
pub open spec fn decimal_fixed(value: nat, width: nat) -> Seq<char>
    decreases width,
{
    if width == 0 {
        Seq::<char>::empty()
    } else {
        decimal_fixed(value / 10, (width - 1) as nat).push(hex_digit(value % 10))
    }
}

/// `n` spaces.
pub open spec fn spaces(n: nat) -> Seq<char> {
    Seq::new(n, |i: int| ' ')
}

/// The text moved to the right edge of a field of `width` characters; a
/// text that is longer than the field is left as it is.
pub open spec fn pad_left(text: Seq<char>, width: nat) -> Seq<char> {
    if text.len() < width {
        spaces((width - text.len()) as nat) + text
    } else {
        text
    }
}

/// The time that is shown for an event: its distance from the start time
/// where relative times are asked for and a start time is known, else the
/// time itself. The first part says whether the shown time is negative, the
/// second is its magnitude in microseconds.
pub open spec fn shown_time(timestamp: u64, config: OutputConfig) -> (bool, nat) {
    if config.use_relative_time && config.start_time is Some {
        let start = config.start_time->0;
        if start > timestamp {
            (true, (start - timestamp) as nat)
        } else {
            (false, (timestamp - start) as nat)
        }
    } else {
        (false, timestamp as nat)
    }
}

/// A time in seconds with six decimals.
pub open spec fn seconds_text(negative: bool, micros: nat) -> Seq<char> {
    (if negative {
        seq!['-']
    } else {
        Seq::<char>::empty()
    }) + decimal(micros / 1_000_000) + seq!['.'] + decimal_fixed(micros % 1_000_000, 6)
}

/// The time column of a line: seconds with six decimals, at the right edge
/// of ten characters.
pub open spec fn timestamp_text(timestamp: u64, config: OutputConfig) -> Seq<char> {
    pad_left(seconds_text(shown_time(timestamp, config).0, shown_time(timestamp, config).1), 10)
}

fn push_decimal_fixed(s: &mut String, value: u64, width: u8)
    ensures
        final(s)@ == old(s)@ + decimal_fixed(value as nat, width as nat),
    decreases width,
{
    if width > 0 {
        push_decimal_fixed(s, value / 10, width - 1);
        push_decimal(s, value % 10);
        proof {
            reveal_with_fuel(decimal, 2);
            assert(decimal((value % 10) as nat) =~= seq![hex_digit((value % 10) as nat)]);
        }
    }
}

/// Format timestamp.
pub fn format_timestamp(timestamp: u64, config: &OutputConfig) -> (text: String)
    ensures
        text@ == timestamp_text(timestamp, *config),
{
    let (negative, micros) = match config.start_time {
        Some(start) => {
            if !config.use_relative_time {
                (false, timestamp)
            } else if start > timestamp {
                (true, start - timestamp)
            } else {
                (false, timestamp - start)
            }
        },
        None => (false, timestamp),
    };
    let mut body = String::new();
    proof {
        reveal_strlit("-");
        reveal_strlit(".");
        reveal_strlit(" ");
    }
    if negative {
        body.append("-");
    }
    push_decimal(&mut body, micros / 1_000_000);
    body.append(".");
    push_decimal_fixed(&mut body, micros % 1_000_000, 6);
    proof {
        assert(body@ =~= seconds_text(negative, micros as nat));
    }
    let len = body.as_str().unicode_len();
    let pad: usize = if len < 10 {
        10 - len
    } else {
        0
    };
    let mut text = String::new();
    let mut n: usize = 0;
    proof {
        assert(text@ =~= spaces(0));
    }
    while n < pad
        invariant
            n <= pad,
            text@ == spaces(n as nat),
        decreases pad - n,
    {
        text.append(" ");
        n = n + 1;
        proof {
            reveal_strlit(" ");
            assert(text@ =~= spaces(n as nat));
        }
    }
    text.append(body.as_str());
    proof {
        if len >= 10 {
            assert(spaces(0) + body@ =~= body@);
        }
        assert(text@ =~= pad_left(body@, 10));
    }
    text
}

/// Format hex bytes: two digits for each byte, single spaces between.
pub fn format_hex(data: &[u8]) -> (text: String)
    ensures
        text@ == hex_spaced(data@),
{
    let mut text = String::new();
    push_hex_joined(&mut text, data, " ");
    proof {
        reveal_strlit(" ");
        assert(" "@ =~= seq![' ']);
    }
    text
}

/// Name of a direction on a line.
pub open spec fn direction_text(direction: Direction) -> Seq<char> {
    match direction {
        Direction::HostToChip => "CI → ASIC"@,
        Direction::ChipToHost => "RO ← ASIC"@,
    }
}

/// What a frame says, in plain words.
pub open spec fn content_text(content: FrameContentView) -> Seq<char> {
    match content {
        FrameContentView::Command(c) => command_text(c),
        FrameContentView::Response(r) => response_text(r),
        FrameContentView::Invalid(msg) => msg,
    }
}

/// A line for a serial frame, given the wording of its content and of its
/// checksum status: time, direction and content, then the raw bytes if asked
/// for, then the checksum status if the checksum was looked at.
pub open spec fn serial_line(
    frame: DissectedFrameView,
    config: OutputConfig,
    content: Seq<char>,
    crc: Seq<char>,
) -> Seq<char> {
    "["@ + timestamp_text(frame.timestamp, config) + "] "@ + direction_text(frame.direction)
        + ": "@ + content + (if config.show_raw_hex {
        " ["@ + hex_spaced(frame.raw_data) + "]"@
    } else {
        Seq::<char>::empty()
    }) + (if frame.crc_status != CrcStatus::NotChecked {
        " ["@ + crc + "]"@
    } else {
        Seq::<char>::empty()
    })
}

/// The line for a serial frame without colours.
pub open spec fn plain_serial_line(frame: DissectedFrameView, config: OutputConfig) -> Seq<char> {
    serial_line(frame, config, content_text(frame.content), crc_label(frame.crc_status))
}

/// Puts a line for a serial frame together from the wording of its content
/// and of its checksum status.
pub fn compose_serial_line(
    frame: &DissectedFrame,
    config: &OutputConfig,
    content: &str,
    crc: &str,
) -> (line: String)
    ensures
        line@ == serial_line(frame@, *config, content@, crc@),
{
    let mut line = String::from_str("[");
    let timestamp = format_timestamp(frame.timestamp, config);
    line.append(timestamp.as_str());
    line.append("] ");
    match frame.direction {
        Direction::HostToChip => line.append("CI → ASIC"),
        Direction::ChipToHost => line.append("RO ← ASIC"),
    }
    line.append(": ");
    line.append(content);
    if config.show_raw_hex {
        line.append(" [");
        let hex = format_hex(frame.raw_data.as_slice());
        line.append(hex.as_str());
        line.append("]");
    }
    match frame.crc_status {
        CrcStatus::NotChecked => {},
        _ => {
            line.append(" [");
            line.append(crc);
            line.append("]");
        },
    }
    proof {
        assert(line@ =~= serial_line(frame@, *config, content@, crc@));
    }
    line
}

/// Format a dissected serial frame.
///
/// Without colours the line is [`plain_serial_line`]. With colours, a frame
/// that could not be decoded and the checksum status are painted; the line
/// is then built in the same way around the painted texts.
pub fn format_serial_frame(frame: &DissectedFrame, config: &OutputConfig) -> (line: String)
    ensures
        !config.use_color ==> line@ == plain_serial_line(frame@, *config),
        exists|content: Seq<char>, crc: Seq<char>|
            line@ == serial_line(frame@, *config, content, crc) && (!(frame@.content is Invalid)
                ==> content == content_text(frame@.content)),
{
    let content = match &frame.content {
        FrameContent::Command(c) => c.to_text(),
        FrameContent::Response(r) => r.to_text(),
        FrameContent::Invalid(msg) => {
            if config.use_color {
                paint_red(msg.as_str())
            } else {
                msg.clone()
            }
        },
    };
    let crc = if config.use_color {
        match frame.crc_status {
            CrcStatus::Valid => paint_green(frame.crc_status.to_text()),
            CrcStatus::Invalid => paint_red(frame.crc_status.to_text()),
            CrcStatus::NotChecked => String::new(),
        }
    } else {
        String::from_str(frame.crc_status.to_text())
    };
    let line = compose_serial_line(frame, config, content.as_str(), crc.as_str());
    proof {
        if !config.use_color {
            assert(line@ =~= plain_serial_line(frame@, *config));
        }
        assert(line@ == serial_line(frame@, *config, content@, crc@));
    }
    line
}

/// Name of a device on a line.
pub open spec fn device_text(device: I2cDevice) -> Seq<char> {
    match device {
        I2cDevice::Emc2101 => "EMC2101@0x"@,
        I2cDevice::Tps546 => "TPS546@0x"@,
        I2cDevice::Unknown => "Device@0x"@,
    }
}

/// The line for an I2C operation: time, device with its address, and the
/// operation in words, then the raw bytes if asked for and there are any.
pub open spec fn i2c_line(op: DissectedI2cView, config: OutputConfig) -> Seq<char> {
    "["@ + timestamp_text(op.timestamp, config) + "] I2C: "@ + device_text(op.device)
        + hex_fixed(op.address as nat, 2) + " "@ + op.operation + (if config.show_raw_hex
        && op.raw_data.len() > 0 {
        " ["@ + hex_spaced(op.raw_data) + "]"@
    } else {
        Seq::<char>::empty()
    })
}

/// Format an I2C operation.
pub fn format_i2c_operation(op: &DissectedI2c, config: &OutputConfig) -> (line: String)
    ensures
        line@ == i2c_line(op@, *config),
{
    let mut line = String::from_str("[");
    let timestamp = format_timestamp(op.timestamp, config);
    line.append(timestamp.as_str());
    line.append("] I2C: ");
    match op.device {
        I2cDevice::Emc2101 => line.append("EMC2101@0x"),
        I2cDevice::Tps546 => line.append("TPS546@0x"),
        I2cDevice::Unknown => line.append("Device@0x"),
    }
    push_hex2(&mut line, op.address);
    line.append(" ");
    line.append(op.operation.as_str());
    if config.show_raw_hex && op.raw_data.len() > 0 {
        line.append(" [");
        let hex = format_hex(op.raw_data.as_slice());
        line.append(hex.as_str());
        line.append("]");
    }
    proof {
        assert(line@ =~= i2c_line(op@, *config));
    }
    line
}

/// Event type for unified output.
#[derive(Debug, Clone, PartialEq, Eq)]
pub enum OutputEvent {
    Serial(DissectedFrame),
    I2c(DissectedI2c),
}

/// What an [`OutputEvent`] holds.
pub ghost enum OutputEventView {
    Serial(DissectedFrameView),
    I2c(DissectedI2cView),
}

impl View for OutputEvent {
    type V = OutputEventView;

    open spec fn view(&self) -> OutputEventView {
        match self {
            OutputEvent::Serial(frame) => OutputEventView::Serial(frame@),
            OutputEvent::I2c(op) => OutputEventView::I2c(op@),
        }
    }
}

impl OutputEventView {
    /// Time of the event in microseconds.
    pub open spec fn timestamp(self) -> u64 {
        match self {
            OutputEventView::Serial(frame) => frame.timestamp,
            OutputEventView::I2c(op) => op.timestamp,
        }
    }
}

impl OutputEvent {
    /// Time of the event in microseconds.
    pub fn timestamp(&self) -> (t: u64)
        ensures
            t == self@.timestamp(),
    {
        match self {
            OutputEvent::Serial(frame) => frame.timestamp,
            OutputEvent::I2c(op) => op.timestamp,
        }
    }

    /// The line for this event.
    pub fn format(&self, config: &OutputConfig) -> (line: String)
        ensures
            match self@ {
                OutputEventView::Serial(frame) => (!config.use_color ==> line@
                    == plain_serial_line(frame, *config)) && exists|
                    content: Seq<char>,
                    crc: Seq<char>,
                |
                    line@ == serial_line(frame, *config, content, crc) && (!(frame.content
                        is Invalid) ==> content == content_text(frame.content)),
                OutputEventView::I2c(op) => line@ == i2c_line(op, *config),
            },
    {
        match self {
            OutputEvent::Serial(frame) => format_serial_frame(frame, config),
            OutputEvent::I2c(op) => format_i2c_operation(op, config),
        }
    }
}

/// Views of a list of events.
pub open spec fn event_views(events: Seq<OutputEvent>) -> Seq<OutputEventView> {
    events.map_values(|e: OutputEvent| e@)
}

/// The events of a list stand in the order of their times.
pub open spec fn time_ordered(events: Seq<OutputEventView>) -> bool {
    forall|i: int, j: int|
        0 <= i <= j < events.len() ==> events[i].timestamp() <= events[j].timestamp()
}

/// The serial frames of a list as events.
pub open spec fn serial_events(frames: Seq<DissectedFrame>) -> Seq<OutputEventView> {
    frames.map_values(|f: DissectedFrame| OutputEventView::Serial(f@))
}

/// The I2C operations of a list as events.
pub open spec fn i2c_events(ops: Seq<DissectedI2c>) -> Seq<OutputEventView> {
    ops.map_values(|op: DissectedI2c| OutputEventView::I2c(op@))
}

/// `stack` holds the events of `list` from index `from` on, last first.
spec fn holds_rest(stack: Seq<OutputEvent>, list: Seq<OutputEventView>, from: int) -> bool {
    &&& 0 <= from <= list.len()
    &&& stack.len() == list.len() - from
    &&& forall|k: int| 0 <= k < stack.len() ==> (#[trigger] stack[k])@ == list[list.len() - 1 - k]
}

fn stack_frames(frames: Vec<DissectedFrame>) -> (stack: Vec<OutputEvent>)
    ensures
        holds_rest(stack@, serial_events(frames@), 0),
{
    let ghost list = serial_events(frames@);
    let mut frames = frames;
    let mut stack: Vec<OutputEvent> = Vec::new();
    while frames.len() > 0
        invariant
            list.len() == stack@.len() + frames@.len(),
            forall|k: int| 0 <= k < frames@.len() ==> OutputEventView::Serial(
                (#[trigger] frames@[k])@,
            ) == list[k],
            forall|k: int|
                0 <= k < stack@.len() ==> (#[trigger] stack@[k])@ == list[list.len() - 1 - k],
        decreases frames@.len(),
    {
        if let Some(frame) = frames.pop() {
            stack.push(OutputEvent::Serial(frame));
        }
    }
    stack
}

fn stack_operations(ops: Vec<DissectedI2c>) -> (stack: Vec<OutputEvent>)
    ensures
        holds_rest(stack@, i2c_events(ops@), 0),
{
    let ghost list = i2c_events(ops@);
    let mut ops = ops;
    let mut stack: Vec<OutputEvent> = Vec::new();
    while ops.len() > 0
        invariant
            list.len() == stack@.len() + ops@.len(),
            forall|k: int| 0 <= k < ops@.len() ==> OutputEventView::I2c((#[trigger] ops@[k])@)
                == list[k],
            forall|k: int|
                0 <= k < stack@.len() ==> (#[trigger] stack@[k])@ == list[list.len() - 1 - k],
        decreases ops@.len(),
    {
        if let Some(op) = ops.pop() {
            stack.push(OutputEvent::I2c(op));
        }
    }
    stack
}

/// A list ordered by time with one more event in its place: behind every
/// event that is no later than it, in front of every event that is later.
pub open spec fn insert_by_time(sorted: Seq<OutputEventView>, e: OutputEventView) -> Seq<
    OutputEventView,
>
    decreases sorted.len(),
{
    if sorted.len() == 0 {
        seq![e]
    } else if sorted.last().timestamp() <= e.timestamp() {
        sorted.push(e)
    } else {
        insert_by_time(sorted.drop_last(), e).push(sorted.last())
    }
}

/// The events of a list in the order of time; events of the same time keep
/// the order they had in the list.
pub open spec fn sort_by_time(events: Seq<OutputEventView>) -> Seq<OutputEventView>
    decreases events.len(),
{
    if events.len() == 0 {
        Seq::<OutputEventView>::empty()
    } else {
        insert_by_time(sort_by_time(events.drop_last()), events.last())
    }
}

/// Putting an event in its place is putting it at index `at`, when all
/// events from there on are later and the one before, if any, is not.
proof fn lemma_insert_position(sorted: Seq<OutputEventView>, e: OutputEventView, at: int)
    requires
        0 <= at <= sorted.len(),
        forall|k: int| at <= k < sorted.len() ==> sorted[k].timestamp() > e.timestamp(),
        at > 0 ==> sorted[at - 1].timestamp() <= e.timestamp(),
    ensures
        insert_by_time(sorted, e) == sorted.insert(at, e),
    decreases sorted.len(),
{
    if sorted.len() == 0 {
        assert(sorted.insert(at, e) =~= seq![e]);
    } else if at == sorted.len() {
        assert(sorted.insert(at, e) =~= sorted.push(e));
    } else {
        lemma_insert_position(sorted.drop_last(), e, at);
        assert(sorted.insert(at, e) =~= sorted.drop_last().insert(at, e).push(sorted.last()));
    }
}

/// Puts an event in its place in a list that is ordered by time.
fn insert_event(events: &mut Vec<OutputEvent>, e: OutputEvent)
    ensures
        event_views(final(events)@) == insert_by_time(event_views(old(events)@), e@),
{
    let ghost before = event_views(events@);
    let mut at: usize = events.len();
    while at > 0 && events[at - 1].timestamp() > e.timestamp()
        invariant
            at <= events@.len(),
            before == event_views(events@),
            forall|k: int| at <= k < before.len() ==> before[k].timestamp() > e@.timestamp(),
        decreases at,
    {
        proof {
            assert(before[at - 1] == events@[at - 1]@);
        }
        at = at - 1;
    }
    proof {
        if at > 0 {
            assert(before[at - 1] == events@[at - 1]@);
        }
        lemma_insert_position(before, e@, at as int);
    }
    events.insert(at, e);
    proof {
        assert(event_views(events@) =~= before.insert(at as int, e@));
    }
}

/// Puts dissected serial frames and I2C operations into one stream of
/// events in the order of time, in whatever order they are given. Events of
/// the same time keep their order, frames in front of operations.
pub fn order_events(frames: Vec<DissectedFrame>, ops: Vec<DissectedI2c>) -> (events: Vec<
    OutputEvent,
>)
    ensures
        event_views(events@) == sort_by_time(serial_events(frames@) + i2c_events(ops@)),
        time_ordered(event_views(events@)),
        events@.len() == frames@.len() + ops@.len(),
{
    let ghost a = serial_events(frames@);
    let ghost b = i2c_events(ops@);
    let mut left = stack_frames(frames);
    let mut right = stack_operations(ops);
    let mut events: Vec<OutputEvent> = Vec::new();
    let ghost mut i: int = 0;
    proof {
        assert(a.take(0) =~= Seq::<OutputEventView>::empty());
        assert(event_views(events@) =~= sort_by_time(a.take(0)));
    }
    while left.len() > 0
        invariant
            holds_rest(left@, a, i),
            event_views(events@) == sort_by_time(a.take(i)),
        decreases left@.len(),
    {
        if let Some(e) = left.pop() {
            proof {
                assert(e@ == a[i]);
                assert(a.take(i + 1).drop_last() =~= a.take(i));
                assert(a.take(i + 1).last() == a[i]);
                i = i + 1;
            }
            insert_event(&mut events, e);
        }
    }
    let ghost mut j: int = 0;
    proof {
        assert(a.take(i) =~= a);
        assert(a + b.take(0) =~= a);
    }
    while right.len() > 0
        invariant
            holds_rest(right@, b, j),
            event_views(events@) == sort_by_time(a + b.take(j)),
        decreases right@.len(),
    {
        if let Some(e) = right.pop() {
            proof {
                assert(e@ == b[j]);
                assert((a + b.take(j + 1)).drop_last() =~= a + b.take(j));
                assert((a + b.take(j + 1)).last() == b[j]);
                j = j + 1;
            }
            insert_event(&mut events, e);
        }
    }
    proof {
        assert(b.take(j) =~= b);
        lemma_sort_by_time(a + b);
    }
    events
}

/// An event put in its place keeps a list ordered by time, and adds nothing
/// but itself.
pub proof fn lemma_insert_by_time(sorted: Seq<OutputEventView>, e: OutputEventView)
    requires
        time_ordered(sorted),
    ensures
        time_ordered(insert_by_time(sorted, e)),
        insert_by_time(sorted, e).len() == sorted.len() + 1,
        insert_by_time(sorted, e).to_multiset() == sorted.to_multiset().insert(e),
        insert_by_time(sorted, e).last() == e || (sorted.len() > 0 && insert_by_time(
            sorted,
            e,
        ).last() == sorted.last() && sorted.last().timestamp() > e.timestamp()),
    decreases sorted.len(),
{
    broadcast use vstd::seq_lib::group_to_multiset_ensures;

    let out = insert_by_time(sorted, e);
    if sorted.len() == 0 {
        assert(seq![e] =~= sorted.push(e));
    } else if sorted.last().timestamp() <= e.timestamp() {
        assert forall|x: int, y: int| 0 <= x <= y < out.len() implies out[x].timestamp()
            <= out[y].timestamp() by {
            if y == sorted.len() && x < sorted.len() {
                assert(sorted[x].timestamp() <= sorted[sorted.len() - 1].timestamp());
            }
        }
    } else {
        let front = sorted.drop_last();
        assert forall|x: int, y: int| 0 <= x <= y < front.len() implies front[x].timestamp()
            <= front[y].timestamp() by {
            assert(front[x] == sorted[x] && front[y] == sorted[y]);
        }
        lemma_insert_by_time(front, e);
        let inner = insert_by_time(front, e);
        assert(out == inner.push(sorted.last()));
        assert(sorted =~= front.push(sorted.last()));
        assert forall|x: int, y: int| 0 <= x <= y < out.len() implies out[x].timestamp()
            <= out[y].timestamp() by {
            if y == inner.len() && x < inner.len() {
                assert(inner[x].timestamp() <= inner.last().timestamp());
                if front.len() > 0 {
                    assert(front.last() == sorted[sorted.len() - 2]);
                    assert(sorted[sorted.len() - 2].timestamp() <= sorted[sorted.len()
                        - 1].timestamp());
                }
            }
        }
        assert(out.to_multiset() =~= sorted.to_multiset().insert(e));
    }
}

/// Ordering by time gives a list that is ordered by time and holds the same
/// events as often as the list it was made from.
pub proof fn lemma_sort_by_time(events: Seq<OutputEventView>)
    ensures
        time_ordered(sort_by_time(events)),
        sort_by_time(events).len() == events.len(),
        sort_by_time(events).to_multiset() == events.to_multiset(),
    decreases events.len(),
{
    broadcast use vstd::seq_lib::group_to_multiset_ensures;

    if events.len() == 0 {
        assert(events =~= Seq::<OutputEventView>::empty());
    } else {
        lemma_sort_by_time(events.drop_last());
        lemma_insert_by_time(sort_by_time(events.drop_last()), events.last());
        assert(events =~= events.drop_last().push(events.last()));
    }
}

/// A list that is ordered by time already is left as it is.
pub proof fn lemma_sorted_input_is_kept(events: Seq<OutputEventView>)
    requires
        time_ordered(events),
    ensures
        sort_by_time(events) == events,
    decreases events.len(),
{
    if events.len() > 0 {
        let front = events.drop_last();
        assert forall|x: int, y: int| 0 <= x <= y < front.len() implies front[x].timestamp()
            <= front[y].timestamp() by {
            assert(front[x] == events[x] && front[y] == events[y]);
        }
        lemma_sorted_input_is_kept(front);
        if front.len() > 0 {
            assert(front.last() == events[events.len() - 2]);
            assert(events[events.len() - 2].timestamp() <= events[events.len() - 1].timestamp());
        }
        assert(events =~= front.push(events.last()));
        assert(insert_by_time(front, events.last()) =~= front.push(events.last())) by {
            if front.len() == 0 {
                assert(seq![events.last()] =~= front.push(events.last()));
            }
        }
    } else {
        assert(events =~= Seq::<OutputEventView>::empty());
    }
}

} // verus!
