//! Stratum V2 protocol client: what is said to a pool to set a connection
//! up, and how its answers are read.
//!
//! The client first tries to reach the pool, a few times if it must. It then
//! sends `SetupConnection` and expects `SetupConnectionSuccess`, sends
//! `OpenStandardMiningChannel` and expects its success message with the id of
//! the channel. Any other answer ends the attempt.

use super::messages::{CommonMessage, PoolMessage, PoolMessageView};
use super::wire::{decode_common, decode_pool_message, decoded_common, decoded_mining};
use super::StratumV2Config;
use crate::job_source::SourceError;
use crate::text::{parse_digits, parse_digits_spec};
use vstd::prelude::*;
use vstd::string::*;

verus! {

/// Host and port of a pool.
#[derive(Debug, Clone, PartialEq, Eq)]
pub struct Endpoint {
    pub host: String,
    pub port: u16,
}

/// What an [`Endpoint`] holds.
pub ghost struct EndpointView {
    pub host: Seq<char>,
    pub port: u16,
}

impl View for Endpoint {
    type V = EndpointView;

    open spec fn view(&self) -> EndpointView {
        EndpointView { host: self.host@, port: self.port }
    }
}

/// The scheme of a Stratum V2 pool URL.
pub open spec fn url_scheme() -> Seq<char> {
    "sv2+tcp://"@
}

/// `prefix` stands at the start of `s`.
pub open spec fn has_prefix(s: Seq<char>, prefix: Seq<char>) -> bool {
    s.len() >= prefix.len() && s.subrange(0, prefix.len() as int) == prefix
}

/// Position of the last `c` in `s`.
pub open spec fn last_index_of(s: Seq<char>, c: char) -> Option<int>
    decreases s.len(),
{
    if s.len() == 0 {
        None
    } else if s.last() == c {
        Some(s.len() - 1)
    } else {
        last_index_of(s.drop_last(), c)
    }
}

/// Host and port that the text behind the scheme names: the host is
/// everything before the last colon and must not be empty; the port is
/// everything behind it and must be a decimal number that fits in 16 bits.
pub open spec fn parse_endpoint_spec(rest: Seq<char>) -> Option<EndpointView> {
    match last_index_of(rest, ':') {
        Some(colon) => match parse_digits_spec(rest.skip(colon + 1), 0xffff) {
            Some(port) => if colon > 0 {
                Some(EndpointView { host: rest.take(colon), port: port as u16 })
            } else {
                None
            },
            None => None,
        },
        None => None,
    }
}

/// What a pool URL names. The URL has the form `sv2+tcp://<host>:<port>`;
/// any other scheme is refused, and so is an address without host or port.
pub open spec fn parse_url_spec(url: Seq<char>) -> Result<EndpointView, SourceError> {
    if !has_prefix(url, url_scheme()) {
        Err(SourceError::InvalidScheme)
    } else {
        match parse_endpoint_spec(url.skip(url_scheme().len() as int)) {
            Some(endpoint) => Ok(endpoint),
            None => Err(SourceError::InvalidEndpoint),
        }
    }
}

fn starts_with(s: &str, prefix: &str) -> (r: bool)
    ensures
        r == has_prefix(s@, prefix@),
{
    let n = prefix.unicode_len();
    if s.unicode_len() < n {
        return false;
    }
    let mut i: usize = 0;
    while i < n
        invariant
            i <= n,
            n == prefix@.len(),
            s@.len() >= n,
            forall|k: int| 0 <= k < i ==> s@[k] == prefix@[k],
        decreases n - i,
    {
        if s.get_char(i) != prefix.get_char(i) {
            proof {
                assert(s@.subrange(0, n as int)[i as int] != prefix@[i as int]);
            }
            return false;
        }
        i = i + 1;
    }
    proof {
        assert(s@.subrange(0, n as int) =~= prefix@);
    }
    true
}

fn find_last(s: &str, from: usize, c: char) -> (at: Option<usize>)
    requires
        from <= s@.len(),
    ensures
        match at {
            Some(i) => from <= i < s@.len() && last_index_of(s@.skip(from as int), c) == Some(
                i - from,
            ),
            None => last_index_of(s@.skip(from as int), c) is None,
        },
{
    let len = s.unicode_len();
    let ghost rest = s@.skip(from as int);
    let mut i: usize = len;
    proof {
        assert(rest.take(rest.len() as int) == rest);
    }
    while i > from
        invariant
            from <= i <= len,
            len == s@.len(),
            rest == s@.skip(from as int),
            last_index_of(rest, c) == last_index_of(rest.take(i - from), c),
        decreases i,
    {
        let ghost prefix = rest.take(i - from);
        proof {
            assert(prefix.last() == s@[i - 1]);
            assert(prefix.drop_last() == rest.take(i - from - 1));
        }
        if s.get_char(i - 1) == c {
            return Some(i - 1);
        }
        i = i - 1;
    }
    None
}

/// Parse `sv2+tcp://host:port` URL.
pub fn parse_url(url: &str) -> (r: Result<Endpoint, SourceError>)
    ensures
        match r {
            Ok(endpoint) => parse_url_spec(url@) == Ok::<EndpointView, SourceError>(endpoint@),
            Err(e) => parse_url_spec(url@) == Err::<EndpointView, SourceError>(e),
        },
{
    let scheme = "sv2+tcp://";
    if !starts_with(url, scheme) {
        return Err(SourceError::InvalidScheme);
    }
    let start = scheme.unicode_len();
    let len = url.unicode_len();
    let ghost rest = url@.skip(start as int);
    let colon = match find_last(url, start, ':') {
        Some(i) => i,
        None => {
            return Err(SourceError::InvalidEndpoint);
        },
    };
    proof {
        assert(url@.skip(colon + 1) == rest.skip(colon - start + 1));
        assert(url@.subrange(start as int, colon as int) == rest.take(colon - start));
    }
    let port = match parse_digits(url, colon + 1, 0xffff) {
        Some(p) => p as u16,
        None => {
            return Err(SourceError::InvalidEndpoint);
        },
    };
    if colon == start {
        return Err(SourceError::InvalidEndpoint);
    }
    let host = String::from_str(url.substring_char(start, colon));
    Ok(Endpoint { host, port })
}

/// Number of times the client tries to reach the pool.
pub const MAX_CONNECT_ATTEMPTS: u32 = 3;

/// Seconds that one attempt may take.
pub const CONNECT_TIMEOUT_SECS: u64 = 10;

/// Seconds between two attempts.
pub const RETRY_DELAY_SECS: u64 = 5;

/// What to do after an attempt to reach the pool failed.
#[derive(Debug, Clone, Copy, PartialEq, Eq, Structural)]
pub enum ConnectStep {
    /// Wait, then try again.
    RetryAfter { delay_secs: u64 },
    /// Give up: the pool cannot be reached.
    GiveUp,
}

/// What follows the failure of attempt number `attempt`, counted from 1:
/// another attempt after the delay, until the last allowed attempt failed.
pub open spec fn connect_step_spec(attempt: u32) -> ConnectStep {
    if attempt < MAX_CONNECT_ATTEMPTS {
        ConnectStep::RetryAfter { delay_secs: RETRY_DELAY_SECS }
    } else {
        ConnectStep::GiveUp
    }
}

/// Decides what follows a failed attempt to reach the pool.
pub fn after_failed_attempt(attempt: u32) -> (step: ConnectStep)
    ensures
        step == connect_step_spec(attempt),
{
    if attempt < MAX_CONNECT_ATTEMPTS {
        ConnectStep::RetryAfter { delay_secs: RETRY_DELAY_SECS }
    } else {
        ConnectStep::GiveUp
    }
}

/// The only protocol version this client speaks.
pub const PROTOCOL_VERSION: u16 = 2;

/// Setup flag of a miner that works on standard jobs only.
pub const REQUIRES_STANDARD_JOBS: u32 = 1;

/// Longest text, in bytes, that a message field of one length byte holds.
pub const MAX_SHORT_TEXT: usize = 255;

/// The protocols that a connection can be set up for.
#[derive(Debug, Clone, Copy, PartialEq, Eq, Structural)]
pub enum Protocol {
    Mining,
    JobDeclaration,
    TemplateDistribution,
}

/// The `SetupConnection` message of a mining device.
#[derive(Debug, Clone, PartialEq, Eq)]
pub struct SetupConnection {
    pub protocol: Protocol,
    pub min_version: u16,
    pub max_version: u16,
    pub flags: u32,
    pub endpoint_host: String,
    pub endpoint_port: u16,
    pub vendor: String,
    pub hardware_version: String,
    pub firmware: String,
    pub device_id: String,
}

/// What a [`SetupConnection`] holds.
pub ghost struct SetupConnectionView {
    pub protocol: Protocol,
    pub min_version: u16,
    pub max_version: u16,
    pub flags: u32,
    pub endpoint_host: Seq<char>,
    pub endpoint_port: u16,
    pub vendor: Seq<char>,
    pub hardware_version: Seq<char>,
    pub firmware: Seq<char>,
    pub device_id: Seq<char>,
}

impl View for SetupConnection {
    type V = SetupConnectionView;

    open spec fn view(&self) -> SetupConnectionView {
        SetupConnectionView {
            protocol: self.protocol,
            min_version: self.min_version,
            max_version: self.max_version,
            flags: self.flags,
            endpoint_host: self.endpoint_host@,
            endpoint_port: self.endpoint_port,
            vendor: self.vendor@,
            hardware_version: self.hardware_version@,
            firmware: self.firmware@,
            device_id: self.device_id@,
        }
    }
}

/// Length of a text in bytes, as it is sent.
pub open spec fn byte_len(text: Seq<char>) -> nat {
    vstd::utf8::encode_utf8(text).len()
}

/// The setup message for a pool at `host` and `port`: mining protocol,
/// version 2 only, standard jobs required, the worker name as device id,
/// and nothing said about vendor, hardware and firmware. There is none when
/// host or worker name are too long to be sent.
pub open spec fn setup_message_spec(worker: Seq<char>, host: Seq<char>, port: u16) -> Result<
    SetupConnectionView,
    SourceError,
> {
    if byte_len(host) > MAX_SHORT_TEXT || byte_len(worker) > MAX_SHORT_TEXT {
        Err(SourceError::InvalidEndpoint)
    } else {
        Ok(
            SetupConnectionView {
                protocol: Protocol::Mining,
                min_version: PROTOCOL_VERSION,
                max_version: PROTOCOL_VERSION,
                flags: REQUIRES_STANDARD_JOBS,
                endpoint_host: host,
                endpoint_port: port,
                vendor: Seq::<char>::empty(),
                hardware_version: Seq::<char>::empty(),
                firmware: Seq::<char>::empty(),
                device_id: worker,
            },
        )
    }
}

/// Builds the `SetupConnection` message.
pub fn setup_message(config: &StratumV2Config, host: &str, port: u16) -> (r: Result<
    SetupConnection,
    SourceError,
>)
    ensures
        match r {
            Ok(msg) => setup_message_spec(config.worker@, host@, port) == Ok::<
                SetupConnectionView,
                SourceError,
            >(msg@),
            Err(e) => setup_message_spec(config.worker@, host@, port) == Err::<
                SetupConnectionView,
                SourceError,
            >(e),
        },
{
    if host.as_bytes().len() > MAX_SHORT_TEXT || config.worker.as_str().as_bytes().len()
        > MAX_SHORT_TEXT {
        return Err(SourceError::InvalidEndpoint);
    }
    Ok(
        SetupConnection {
            protocol: Protocol::Mining,
            min_version: PROTOCOL_VERSION,
            max_version: PROTOCOL_VERSION,
            flags: REQUIRES_STANDARD_JOBS,
            endpoint_host: String::from_str(host),
            endpoint_port: port,
            vendor: String::new(),
            hardware_version: String::new(),
            firmware: String::new(),
            device_id: config.worker.clone(),
        },
    )
}

/// What the answer to `SetupConnection` means: the version and flags that
/// the pool settled on, or why the connection ends here.
pub open spec fn setup_reply_spec(reply: Option<CommonMessage>) -> Result<(u16, u32), SourceError> {
    match reply {
        Some(CommonMessage::SetupSuccess { used_version, flags }) => Ok((used_version, flags)),
        Some(CommonMessage::SetupError) => Err(SourceError::SetupRejected),
        Some(CommonMessage::Other) => Err(SourceError::UnexpectedMessage),
        None => Err(SourceError::MalformedMessage),
    }
}

/// Reads the decoded answer to `SetupConnection`.
pub fn check_setup_reply(reply: Option<CommonMessage>) -> (r: Result<(u16, u32), SourceError>)
    ensures
        r == setup_reply_spec(reply),
{
    match reply {
        Some(CommonMessage::SetupSuccess { used_version, flags }) => Ok((used_version, flags)),
        Some(CommonMessage::SetupError) => Err(SourceError::SetupRejected),
        Some(CommonMessage::Other) => Err(SourceError::UnexpectedMessage),
        None => Err(SourceError::MalformedMessage),
    }
}

/// Reads the frame that answers `SetupConnection`.
pub fn setup_reply(message_type: u8, payload: Vec<u8>) -> (r: Result<(u16, u32), SourceError>)
    ensures
        r == setup_reply_spec(decoded_common(message_type, payload@)),
{
    check_setup_reply(decode_common(message_type, payload))
}

/// Hash rate that a channel is opened with, in hashes per second: a
/// placeholder until the real rate is measured.
pub const NOMINAL_HASH_RATE: u64 = 1_000_000_000_000;

/// The `OpenStandardMiningChannel` message.
#[derive(Debug, Clone, PartialEq, Eq)]
pub struct OpenStandardMiningChannel {
    pub request_id: u32,
    pub user_identity: String,
    /// Expected hash rate in hashes per second.
    pub nominal_hash_rate: u64,
    /// Largest target the miner accepts, little-endian.
    pub max_target: [u8; 32],
}

/// What an [`OpenStandardMiningChannel`] holds.
pub ghost struct OpenStandardMiningChannelView {
    pub request_id: u32,
    pub user_identity: Seq<char>,
    pub nominal_hash_rate: u64,
    pub max_target: Seq<u8>,
}

impl View for OpenStandardMiningChannel {
    type V = OpenStandardMiningChannelView;

    open spec fn view(&self) -> OpenStandardMiningChannelView {
        OpenStandardMiningChannelView {
            request_id: self.request_id,
            user_identity: self.user_identity@,
            nominal_hash_rate: self.nominal_hash_rate,
            max_target: self.max_target@,
        }
    }
}

/// The message that opens the channel: request 0, the worker name as user,
/// the placeholder hash rate, and a largest target with every bit set. There
/// is none when the worker name is too long to be sent.
pub open spec fn open_channel_message_spec(worker: Seq<char>) -> Result<
    OpenStandardMiningChannelView,
    SourceError,
> {
    if byte_len(worker) > MAX_SHORT_TEXT {
        Err(SourceError::InvalidEndpoint)
    } else {
        Ok(
            OpenStandardMiningChannelView {
                request_id: 0,
                user_identity: worker,
                nominal_hash_rate: NOMINAL_HASH_RATE,
                max_target: super::default_target(),
            },
        )
    }
}

/// Builds the `OpenStandardMiningChannel` message.
pub fn open_channel_message(config: &StratumV2Config) -> (r: Result<
    OpenStandardMiningChannel,
    SourceError,
>)
    ensures
        match r {
            Ok(msg) => open_channel_message_spec(config.worker@) == Ok::<
                OpenStandardMiningChannelView,
                SourceError,
            >(msg@),
            Err(e) => open_channel_message_spec(config.worker@) == Err::<
                OpenStandardMiningChannelView,
                SourceError,
            >(e),
        },
{
    if config.worker.as_str().as_bytes().len() > MAX_SHORT_TEXT {
        return Err(SourceError::InvalidEndpoint);
    }
    let max_target = [0xffu8; 32];
    proof {
        assert(max_target@ =~= super::default_target());
    }
    Ok(
        OpenStandardMiningChannel {
            request_id: 0,
            user_identity: config.worker.clone(),
            nominal_hash_rate: NOMINAL_HASH_RATE,
            max_target,
        },
    )
}

/// What the answer to `OpenStandardMiningChannel` means: the id of the
/// channel, or why the connection ends here.
pub open spec fn open_reply_spec(reply: Option<PoolMessageView>) -> Result<u32, SourceError> {
    match reply {
        Some(PoolMessageView::ChannelOpened(channel_id)) => Ok(channel_id),
        Some(PoolMessageView::ChannelRefused) => Err(SourceError::ChannelRejected),
        Some(_) => Err(SourceError::UnexpectedMessage),
        None => Err(SourceError::MalformedMessage),
    }
}

/// Reads the decoded answer to `OpenStandardMiningChannel`.
pub fn check_open_reply(reply: Option<PoolMessage>) -> (r: Result<u32, SourceError>)
    ensures
        r == open_reply_spec(super::messages::pool_message_view(reply)),
{
    match reply {
        Some(PoolMessage::ChannelOpened(channel_id)) => Ok(channel_id),
        Some(PoolMessage::ChannelRefused) => Err(SourceError::ChannelRejected),
        Some(_) => Err(SourceError::UnexpectedMessage),
        None => Err(SourceError::MalformedMessage),
    }
}

/// Reads the frame that answers `OpenStandardMiningChannel`.
pub fn open_reply(message_type: u8, payload: Vec<u8>) -> (r: Result<u32, SourceError>)
    ensures
        r == open_reply_spec(decoded_mining(message_type, payload@)),
{
    check_open_reply(decode_pool_message(message_type, payload))
}

} // verus!
