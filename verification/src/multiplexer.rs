//! Stream multiplexer: many virtual streams over a single connection.
//!
//! The multiplexer decides what becomes of each frame; whoever runs it owns the channels and
//! performs what is decided. A channel is known here by a handle.

use vstd::prelude::*;

use crate::error::TunnelError;
use crate::frame::{Frame, FrameView, OpenStreamFrame, Protocol, StreamPriority};

verus! {

/// Capacity of the channel of one stream.
pub const STREAM_CHANNEL_CAPACITY: usize = 128;

/// Capacity of the queue of streams that the peer opened.
pub const NEW_STREAM_QUEUE_CAPACITY: usize = 32;

/// Milliseconds after which sending a frame to the wire channel fails.
pub const FRAME_SEND_TIMEOUT_MILLIS: u64 = 5000;

/// A frame and the priority at which it is sent.
pub type PrioritizedFrame = (StreamPriority, Frame);

/// How a send to the wire channel ended.
#[derive(Debug, Clone, PartialEq, Eq)]
pub enum SendOutcome {
    /// The frame was queued.
    Sent,
    /// The channel is closed; it says so in these words.
    Closed(String),
    /// The channel stayed full for too long.
    TimedOut,
}

/// What is wrong with a send that ended so, in words; `None` where it was made.
pub open spec fn send_complaint(outcome: SendOutcome) -> Option<Seq<char>> {
    match outcome {
        SendOutcome::Sent => None,
        SendOutcome::Closed(why) => Some(why@),
        SendOutcome::TimedOut => Some("timed out sending frame to wire channel"@),
    }
}

/// What the end of a send means for the sender: a closed or full channel fails it.
pub fn send_result(outcome: SendOutcome) -> (r: Result<(), TunnelError>)
    ensures
        r is Ok <==> send_complaint(outcome) is None,
        r matches Err(e) ==> e is Io && send_complaint(outcome) == Some(e.text()),
{
    match outcome {
        SendOutcome::Sent => Ok(()),
        SendOutcome::Closed(why) => Err(TunnelError::Io(why)),
        SendOutcome::TimedOut => Err(
            TunnelError::Io("timed out sending frame to wire channel".to_owned()),
        ),
    }
}

/// The channels that a map holds, by stream id.
pub uninterp spec fn channels_of(map: dashmap::DashMap<u32, u64>) -> Map<u32, u64>;

/// The priorities that a map holds, by stream id.
pub uninterp spec fn priorities_of(map: dashmap::DashMap<u32, StreamPriority>) -> Map<
    u32,
    StreamPriority,
>;

/// Makes an empty map of channels: `dashmap::DashMap::new`.
#[verifier::external_body]
fn new_channels() -> (r: dashmap::DashMap<u32, u64>)
    ensures
        channels_of(r) == no_streams().channels,
{
    dashmap::DashMap::new()
}

/// Makes an empty map of priorities: `dashmap::DashMap::new`.
#[verifier::external_body]
fn new_priorities() -> (r: dashmap::DashMap<u32, StreamPriority>)
    ensures
        priorities_of(r) == no_streams().priorities,
{
    dashmap::DashMap::new()
}

/// Gives a stream a channel unless it has one, and tells whether it had none:
/// `dashmap::DashMap::entry`.
#[verifier::external_body]
fn claim_channel(map: &mut dashmap::DashMap<u32, u64>, stream_id: u32, channel: u64) -> (r: bool)
    ensures
        r == !channels_of(*old(map)).contains_key(stream_id),
        channels_of(*final(map)) == if channels_of(*old(map)).contains_key(stream_id) {
            channels_of(*old(map))
        } else {
            channels_of(*old(map)).insert(stream_id, channel)
        },
{
    match map.entry(stream_id) {
        dashmap::mapref::entry::Entry::Occupied(_) => false,
        dashmap::mapref::entry::Entry::Vacant(entry) => {
            entry.insert(channel);
            true
        },
    }
}

/// Sets the channel of a stream: `dashmap::DashMap::insert`.
#[verifier::external_body]
fn insert_channel(map: &mut dashmap::DashMap<u32, u64>, stream_id: u32, channel: u64)
    ensures
        channels_of(*final(map)) == channels_of(*old(map)).insert(stream_id, channel),
{
    map.insert(stream_id, channel);
}

/// Takes a stream's channel out of a map: `dashmap::DashMap::remove`.
#[verifier::external_body]
fn remove_channel(map: &mut dashmap::DashMap<u32, u64>, stream_id: u32)
    ensures
        channels_of(*final(map)) == channels_of(*old(map)).remove(stream_id),
{
    map.remove(&stream_id);
}

/// The channel of a stream: `dashmap::DashMap::get`.
#[verifier::external_body]
fn get_channel(map: &dashmap::DashMap<u32, u64>, stream_id: u32) -> (r: Option<u64>)
    ensures
        r is Some <==> channels_of(*map).contains_key(stream_id),
        r is Some ==> r->0 == channels_of(*map)[stream_id],
{
    map.get(&stream_id).map(|entry| *entry.value())
}

/// Sets the priority of a stream: `dashmap::DashMap::insert`.
#[verifier::external_body]
fn insert_priority(
    map: &mut dashmap::DashMap<u32, StreamPriority>,
    stream_id: u32,
    priority: StreamPriority,
)
    ensures
        priorities_of(*final(map)) == priorities_of(*old(map)).insert(stream_id, priority),
{
    map.insert(stream_id, priority);
}

/// Takes a stream's priority out of a map: `dashmap::DashMap::remove`.
#[verifier::external_body]
fn remove_priority(map: &mut dashmap::DashMap<u32, StreamPriority>, stream_id: u32)
    ensures
        priorities_of(*final(map)) == priorities_of(*old(map)).remove(stream_id),
{
    map.remove(&stream_id);
}

/// The priority of a stream: `dashmap::DashMap::get`.
#[verifier::external_body]
fn get_priority(map: &dashmap::DashMap<u32, StreamPriority>, stream_id: u32) -> (r: Option<
    StreamPriority,
>)
    ensures
        r is Some <==> priorities_of(*map).contains_key(stream_id),
        r is Some ==> r->0 == priorities_of(*map)[stream_id],
{
    map.get(&stream_id).map(|entry| *entry.value())
}

/// What a multiplexer holds.
pub struct MultiplexerView {
    /// The channel of each open stream.
    pub channels: Map<u32, u64>,
    /// The priority of each stream.
    pub priorities: Map<u32, StreamPriority>,
    /// The stream that was last looked up, and its channel.
    pub last: Option<(u32, u64)>,
    /// The id of the next stream opened here.
    pub next_id: u32,
}

/// A multiplexer without streams.
pub open spec fn no_streams() -> MultiplexerView {
    MultiplexerView { channels: Map::empty(), priorities: Map::empty(), last: None, next_id: 0 }
}

/// The channel to which frames of a stream go, where there is one: that of the last stream
/// looked up, or else the one it has.
pub open spec fn route(mux: MultiplexerView, stream_id: u32) -> Option<u64> {
    if mux.last is Some && (mux.last->0).0 == stream_id {
        Some((mux.last->0).1)
    } else if mux.channels.contains_key(stream_id) {
        Some(mux.channels[stream_id])
    } else {
        None
    }
}

/// The multiplexer after a stream was looked up.
pub open spec fn looked_up(mux: MultiplexerView, stream_id: u32) -> MultiplexerView {
    match route(mux, stream_id) {
        Some(channel) => MultiplexerView { last: Some((stream_id, channel)), ..mux },
        None => mux,
    }
}

/// The multiplexer with a stream of the given channel and priority.
pub open spec fn with_stream(
    mux: MultiplexerView,
    stream_id: u32,
    channel: u64,
    priority: StreamPriority,
) -> MultiplexerView {
    MultiplexerView {
        channels: mux.channels.insert(stream_id, channel),
        priorities: mux.priorities.insert(stream_id, priority),
        ..mux
    }
}

/// The multiplexer without the channel of a stream.
pub open spec fn without_channel(mux: MultiplexerView, stream_id: u32) -> MultiplexerView {
    MultiplexerView { channels: mux.channels.remove(stream_id), ..mux }
}

/// The multiplexer without the channel and the priority of a stream.
pub open spec fn without_stream(mux: MultiplexerView, stream_id: u32) -> MultiplexerView {
    MultiplexerView {
        channels: mux.channels.remove(stream_id),
        priorities: mux.priorities.remove(stream_id),
        ..mux
    }
}

/// The priority at which a frame is sent: data and close follow their stream, heartbeats and
/// handshake acknowledgments come first.
pub open spec fn priority_of_frame(frame: Frame, priorities: Map<u32, StreamPriority>) -> StreamPriority {
    match frame {
        Frame::Data { stream_id, .. } | Frame::CloseStream { stream_id, .. } =>
            if priorities.contains_key(stream_id) {
            priorities[stream_id]
        } else {
            StreamPriority::Normal
        },
        Frame::Heartbeat { .. } | Frame::HandshakeAck { .. } => StreamPriority::Critical,
        _ => StreamPriority::Normal,
    }
}

/// A stream that the peer opened.
#[derive(Debug, Clone, Copy, PartialEq, Eq, Structural)]
pub struct IncomingStream {
    pub stream_id: u32,
    pub channel: u64,
    pub priority: StreamPriority,
    pub protocol: Protocol,
}

/// What is to be done with a frame that came from the wire.
#[derive(Debug, PartialEq)]
pub enum FrameAction {
    /// Nothing.
    Ignore,
    /// Queue a new stream; where that fails, report it with `stream_not_queued`.
    Announce(IncomingStream),
    /// Send the frame to a channel; where that fails, report it with `data_not_delivered`.
    DeliverData { stream_id: u32, channel: u64, frame: Frame },
    /// Send the frame to a channel, if that can be done.
    DeliverClose { channel: u64, frame: Frame },
}

/// Manages multiple virtual streams over a single connection.
pub struct Multiplexer {
    streams: dashmap::DashMap<u32, u64>,
    stream_priorities: dashmap::DashMap<u32, StreamPriority>,
    last_sender: Option<(u32, u64)>,
    next_stream_id: u32,
}

impl View for Multiplexer {
    type V = MultiplexerView;

    closed spec fn view(&self) -> MultiplexerView {
        MultiplexerView {
            channels: channels_of(self.streams),
            priorities: priorities_of(self.stream_priorities),
            last: self.last_sender,
            next_id: self.next_stream_id,
        }
    }
}

/// The id of the first stream that a side opens.
pub open spec fn first_id(is_client: bool) -> u32 {
    if is_client {
        1
    } else {
        2
    }
}

/// The id that follows `id`: two more, starting anew beyond 32 bits.
pub open spec fn id_after(id: u32) -> u32 {
    if id as int + 2 <= u32::MAX {
        (id + 2) as u32
    } else {
        (id as int + 2 - 0x1_0000_0000) as u32
    }
}

impl Multiplexer {
    /// Creates a multiplexer without streams. A client opens streams with odd ids, a server
    /// with even ones.
    pub fn new(is_client: bool) -> (r: Multiplexer)
        ensures
            r@ == (MultiplexerView { next_id: first_id(is_client), ..no_streams() }),
    {
        Multiplexer {
            streams: new_channels(),
            stream_priorities: new_priorities(),
            last_sender: None,
            next_stream_id: if is_client {
                1
            } else {
                2
            },
        }
    }

    /// Pairs a frame with the priority at which it is sent.
    pub fn prioritize(&self, frame: Frame) -> (r: PrioritizedFrame)
        ensures
            r.0 == priority_of_frame(frame, self@.priorities),
            r.1 == frame,
    {
        let priority: StreamPriority = match &frame {
            Frame::Data { stream_id, .. } => match get_priority(
                &self.stream_priorities,
                *stream_id,
            ) {
                Some(p) => p,
                None => StreamPriority::Normal,
            },
            Frame::Heartbeat { .. } | Frame::HandshakeAck { .. } => StreamPriority::Critical,
            Frame::CloseStream { stream_id, .. } => match get_priority(
                &self.stream_priorities,
                *stream_id,
            ) {
                Some(p) => p,
                None => StreamPriority::Normal,
            },
            _ => StreamPriority::Normal,
        };
        (priority, frame)
    }

    fn allocate_stream_id(&mut self) -> (r: u32)
        ensures
            r == old(self)@.next_id,
            final(self)@ == (MultiplexerView { next_id: id_after(r), ..old(self)@ }),
    {
        let id: u32 = self.next_stream_id;
        self.next_stream_id =
        if id <= 0xffff_fffd {
            id + 2
        } else {
            id - 0xffff_fffe
        };
        id
    }

    fn cached_sender(&self, stream_id: u32) -> (r: Option<u64>)
        ensures
            r is Some <==> self@.last is Some && (self@.last->0).0 == stream_id,
            r matches Some(channel) ==> self@.last == Some((stream_id, channel)),
    {
        match self.last_sender {
            Some((id, channel)) => if id == stream_id {
                Some(channel)
            } else {
                None
            },
            None => None,
        }
    }

    fn lookup_and_cache_sender(&mut self, stream_id: u32) -> (r: Option<u64>)
        ensures
            r is Some <==> old(self)@.channels.contains_key(stream_id),
            r matches Some(channel) ==> channel == old(self)@.channels[stream_id] && final(self)@
                == (MultiplexerView { last: Some((stream_id, channel)), ..old(self)@ }),
            r is None ==> final(self)@ == old(self)@,
    {
        match get_channel(&self.streams, stream_id) {
            Some(channel) => {
                self.last_sender = Some((stream_id, channel));
                Some(channel)
            },
            None => None,
        }
    }

    fn find_sender(&mut self, stream_id: u32) -> (r: Option<u64>)
        ensures
            r == route(old(self)@, stream_id),
            final(self)@ == looked_up(old(self)@, stream_id),
    {
        match self.cached_sender(stream_id) {
            Some(channel) => Some(channel),
            None => self.lookup_and_cache_sender(stream_id),
        }
    }

    /// Decides what becomes of a frame that came from the wire. A stream that it opens gets
    /// the channel `fresh`.
    ///
    /// An open request for a stream that is open is ignored. Data goes where [`route`] says: to
    /// the channel of the stream looked up last, also after that stream was closed or opened
    /// anew, and else to the channel of an open stream; data for any other stream is ignored. A
    /// close goes the same way, and takes the stream out.
    pub fn process_frame(&mut self, frame: Frame, fresh: u64) -> (r: FrameAction)
        ensures
            match frame {
                Frame::OpenStream(o) => if old(self)@.channels.contains_key(o.stream_id) {
                    r == FrameAction::Ignore && final(self)@ == old(self)@
                } else {
                    r == FrameAction::Announce(
                        IncomingStream {
                            stream_id: o.stream_id,
                            channel: fresh,
                            priority: o.priority,
                            protocol: o.protocol,
                        },
                    ) && final(self)@ == with_stream(old(self)@, o.stream_id, fresh, o.priority)
                },
                Frame::Data { stream_id, .. } => final(self)@ == looked_up(old(self)@, stream_id)
                    && match route(old(self)@, stream_id) {
                    Some(channel) => r == (FrameAction::DeliverData { stream_id, channel, frame }),
                    None => r == FrameAction::Ignore,
                },
                Frame::CloseStream { stream_id, .. } => final(self)@ == without_stream(
                    looked_up(old(self)@, stream_id),
                    stream_id,
                ) && match route(old(self)@, stream_id) {
                    Some(channel) => r == (FrameAction::DeliverClose { channel, frame }),
                    None => r == FrameAction::Ignore,
                },
                _ => r == FrameAction::Ignore && final(self)@ == old(self)@,
            },
    {
        match &frame {
            Frame::OpenStream(open) => {
                let stream_id: u32 = open.stream_id;
                let priority = open.priority;
                let protocol = open.protocol;
                if !claim_channel(&mut self.streams, stream_id, fresh) {
                    return FrameAction::Ignore;
                }
                insert_priority(&mut self.stream_priorities, stream_id, priority);
                FrameAction::Announce(
                    IncomingStream { stream_id, channel: fresh, priority, protocol },
                )
            },
            Frame::Data { stream_id, .. } => {
                let stream_id: u32 = *stream_id;
                match self.find_sender(stream_id) {
                    Some(channel) => FrameAction::DeliverData { stream_id, channel, frame },
                    None => FrameAction::Ignore,
                }
            },
            Frame::CloseStream { stream_id, .. } => {
                let stream_id: u32 = *stream_id;
                let sender = self.find_sender(stream_id);
                remove_channel(&mut self.streams, stream_id);
                remove_priority(&mut self.stream_priorities, stream_id);
                match sender {
                    Some(channel) => FrameAction::DeliverClose { channel, frame },
                    None => FrameAction::Ignore,
                }
            },
            _ => FrameAction::Ignore,
        }
    }

    /// Records that a new stream could not be queued.
    pub fn stream_not_queued(&mut self, stream_id: u32)
        ensures
            final(self)@ == without_channel(old(self)@, stream_id),
    {
        remove_channel(&mut self.streams, stream_id);
    }

    /// Records that data could not be sent to the channel of its stream.
    pub fn data_not_delivered(&mut self, stream_id: u32)
        ensures
            final(self)@ == without_channel(old(self)@, stream_id),
    {
        remove_channel(&mut self.streams, stream_id);
    }

    /// Opens a new outbound stream with the default priority.
    pub fn open_stream(&mut self, protocol: Protocol, channel: u64) -> (r: (u32, PrioritizedFrame))
        ensures
            r.0 == old(self)@.next_id,
            r.1.0 == StreamPriority::Normal,
            r.1.1@ == (FrameView::OpenStream {
                stream_id: r.0,
                protocol,
                headers: Seq::empty(),
                body_hint: None,
                priority: StreamPriority::Normal,
            }),
            final(self)@ == with_stream(
                MultiplexerView { next_id: id_after(r.0), ..old(self)@ },
                r.0,
                channel,
                StreamPriority::Normal,
            ),
    {
        self.open_stream_with_priority(protocol, StreamPriority::Normal, channel)
    }

    /// Opens a new outbound stream with the given priority, on the given channel. Returns its
    /// id and the frame that tells the peer.
    pub fn open_stream_with_priority(
        &mut self,
        protocol: Protocol,
        priority: StreamPriority,
        channel: u64,
    ) -> (r: (u32, PrioritizedFrame))
        ensures
            r.0 == old(self)@.next_id,
            r.1.0 == priority,
            r.1.1@ == (FrameView::OpenStream {
                stream_id: r.0,
                protocol,
                headers: Seq::empty(),
                body_hint: None,
                priority,
            }),
            final(self)@ == with_stream(
                MultiplexerView { next_id: id_after(r.0), ..old(self)@ },
                r.0,
                channel,
                priority,
            ),
    {
        let stream_id: u32 = self.allocate_stream_id();
        insert_channel(&mut self.streams, stream_id, channel);
        insert_priority(&mut self.stream_priorities, stream_id, priority);
        let headers: Vec<(String, String)> = Vec::new();
        proof {
            assert(crate::text::text_pairs(headers@) =~= Seq::empty());
        }
        let frame = Frame::OpenStream(
            Box::new(OpenStreamFrame { stream_id, protocol, headers, body_hint: None, priority }),
        );
        (stream_id, (priority, frame))
    }
}

/// The id of the stream that a side opens after `n` others.
pub open spec fn nth_id(is_client: bool, n: nat) -> u32
    decreases n,
{
    if n == 0 {
        first_id(is_client)
    } else {
        id_after(nth_id(is_client, (n - 1) as nat))
    }
}

/// What the id of the stream that a side opens after `n` others is, modulo 32 bits.
pub proof fn lemma_nth_id(is_client: bool, n: nat)
    ensures
        nth_id(is_client, n) as int == (first_id(is_client) as int + 2 * n) % 0x1_0000_0000,
    decreases n,
{
    if n > 0 {
        lemma_nth_id(is_client, (n - 1) as nat);
        let before = first_id(is_client) as int + 2 * (n - 1);
        assert((before + 2) % 0x1_0000_0000 == (before % 0x1_0000_0000 + 2) % 0x1_0000_0000);
    }
}

/// A client only opens streams with odd ids and a server only streams with even ones, so that
/// the two never open a stream with the same id.
pub proof fn law_sides_never_share_an_id(n: nat, m: nat)
    ensures
        nth_id(true, n) % 2 == 1,
        nth_id(false, m) % 2 == 0,
        nth_id(true, n) != nth_id(false, m),
{
    lemma_nth_id(true, n);
    lemma_nth_id(false, m);
    assert((1 + 2 * n) % 0x1_0000_0000 % 2 == (1 + 2 * n) % 2);
    assert((2 + 2 * m) % 0x1_0000_0000 % 2 == (2 + 2 * m) % 2);
}

/// A side does not give an id twice before it has opened 2^31 streams.
pub proof fn law_ids_are_distinct(is_client: bool, n: nat, m: nat)
    requires
        n < m,
        m - n < 0x8000_0000,
    ensures
        nth_id(is_client, n) != nth_id(is_client, m),
{
    lemma_nth_id(is_client, n);
    lemma_nth_id(is_client, m);
    let a = first_id(is_client) as int + 2 * n;
    let d = 2 * (m - n);
    assert(0 < d < 0x1_0000_0000);
    assert((a + d) % 0x1_0000_0000 != a % 0x1_0000_0000);
}

/// Whether the stream that was looked up last, where it is open, is known by its own channel.
pub open spec fn agrees(mux: MultiplexerView) -> bool {
    mux.last matches Some((id, channel)) ==> !mux.channels.contains_key(id) || mux.channels[id]
        == channel
}

/// A multiplexer starts with the stream looked up last known by its own channel, and every
/// operation keeps that, but for one: the id of the stream looked up last may not be opened
/// again on another channel.
pub proof fn law_operations_keep_agreement(
    mux: MultiplexerView,
    stream_id: u32,
    channel: u64,
    priority: StreamPriority,
    next_id: u32,
)
    requires
        agrees(mux),
    ensures
        agrees(MultiplexerView { next_id, ..no_streams() }),
        agrees(looked_up(mux, stream_id)),
        agrees(without_channel(mux, stream_id)),
        agrees(without_stream(looked_up(mux, stream_id), stream_id)),
        (mux.last matches Some((id, c)) ==> id != stream_id || c == channel) ==> agrees(
            with_stream(MultiplexerView { next_id, ..mux }, stream_id, channel, priority),
        ),
{
}

/// Data of a stream that is open goes to the channel of that stream.
pub proof fn law_data_goes_to_its_stream(mux: MultiplexerView, stream_id: u32)
    requires
        mux.channels.contains_key(stream_id),
        agrees(mux),
    ensures
        route(mux, stream_id) == Some(mux.channels[stream_id]),
{
}

/// Data of one stream never goes to the channel of another, and looking one up changes
/// nothing for the other.
pub proof fn law_streams_are_kept_apart(mux: MultiplexerView, a: u32, b: u32)
    requires
        a != b,
        mux.channels.contains_key(a),
        mux.channels.contains_key(b),
        mux.channels[a] != mux.channels[b],
        agrees(mux),
    ensures
        route(mux, a) != route(mux, b),
        route(looked_up(mux, a), b) == route(mux, b),
{
}

/// Closing a stream takes it and its priority out, and leaves every other stream alone.
pub proof fn law_close_takes_out_one_stream(mux: MultiplexerView, stream_id: u32, other: u32)
    requires
        other != stream_id,
    ensures
        !without_stream(mux, stream_id).channels.contains_key(stream_id),
        !without_stream(mux, stream_id).priorities.contains_key(stream_id),
        without_stream(mux, stream_id).channels.contains_key(other) == mux.channels.contains_key(
            other,
        ),
        mux.channels.contains_key(other) ==> without_stream(mux, stream_id).channels[other]
            == mux.channels[other],
{
}

/// A frame of a stream that is open goes to the channel of that stream, whole: data to be
/// delivered, and a close likewise, after which the stream is gone. A frame of a stream that is
/// neither open nor the one looked up last is ignored. Every other stream keeps its channel and its
/// priority.
pub proof fn law_frames_reach_their_stream(
    mux: &mut Multiplexer,
    frame: Frame,
    stream_id: u32,
    fresh: u64,
    other: u32,
    r: FrameAction,
)
    requires
        call_ensures(Multiplexer::process_frame, (mux, frame, fresh), r),
        frame is Data || frame is CloseStream,
        frame is Data ==> frame->Data_stream_id == stream_id,
        frame is CloseStream ==> frame->CloseStream_stream_id == stream_id,
        other != stream_id,
        old(mux)@.last matches Some((id, channel)) ==> !old(mux)@.channels.contains_key(id)
            || old(mux)@.channels[id] == channel,
    ensures
        old(mux)@.channels.contains_key(stream_id) && frame is Data ==> r == (
        FrameAction::DeliverData { stream_id, channel: old(mux)@.channels[stream_id], frame }),
        old(mux)@.channels.contains_key(stream_id) && frame is CloseStream ==> r == (
        FrameAction::DeliverClose { channel: old(mux)@.channels[stream_id], frame }),
        !old(mux)@.channels.contains_key(stream_id) && !(old(mux)@.last is Some && (
        old(mux)@.last->0).0 == stream_id) ==> r == FrameAction::Ignore,
        final(mux)@.channels.contains_key(stream_id) <==> frame is Data
            && old(mux)@.channels.contains_key(stream_id),
        frame is CloseStream ==> !final(mux)@.priorities.contains_key(stream_id),
        final(mux)@.channels.contains_key(other) <==> old(mux)@.channels.contains_key(other),
        old(mux)@.channels.contains_key(other) ==> final(mux)@.channels[other]
            == old(mux)@.channels[other],
        final(mux)@.priorities.contains_key(other) <==> old(mux)@.priorities.contains_key(other),
        old(mux)@.priorities.contains_key(other) ==> final(mux)@.priorities[other]
            == old(mux)@.priorities[other],
        frame is Data ==> final(mux)@.channels == old(mux)@.channels && final(mux)@.priorities
            == old(mux)@.priorities,
        final(mux)@.next_id == old(mux)@.next_id,
{
}

/// A stream that the peer opens is announced with the channel that it is given and the priority
/// and protocol that it asks for, unless its id is open already; from then on its data goes to that
/// channel. Frames of other kinds change nothing.
pub proof fn law_opened_stream_is_announced(
    mux: &mut Multiplexer,
    frame: Frame,
    fresh: u64,
    r: FrameAction,
)
    requires
        call_ensures(Multiplexer::process_frame, (mux, frame, fresh), r),
    ensures
        frame matches Frame::OpenStream(o) ==> {
            &&& old(mux)@.channels.contains_key(o.stream_id) ==> r == FrameAction::Ignore && final(mux)@ == old(mux)@
            &&& !old(mux)@.channels.contains_key(o.stream_id) ==> r == FrameAction::Announce(
                IncomingStream {
                    stream_id: o.stream_id,
                    channel: fresh,
                    priority: o.priority,
                    protocol: o.protocol,
                },
            ) && final(mux)@.channels == old(mux)@.channels.insert(o.stream_id, fresh) && final(mux)@.priorities == old(mux)@.priorities.insert(o.stream_id, o.priority) && final(mux)@.last
                == old(mux)@.last && final(mux)@.next_id == old(mux)@.next_id
        },
        !(frame is OpenStream || frame is Data || frame is CloseStream) ==> r == FrameAction::Ignore
            && final(mux)@ == old(mux)@,
{
}

/// A multiplexer starts without streams. The streams that it opens have ids that go up by two, from
/// one for a client and from two for a server; each is known under its id by the channel and the
/// priority that it was given, and the peer is told of it in those terms.
pub proof fn law_opening_tells_the_peer(
    is_client: bool,
    fresh: Multiplexer,
    mux: &mut Multiplexer,
    protocol: Protocol,
    priority: StreamPriority,
    channel: u64,
    r: (u32, PrioritizedFrame),
)
    requires
        call_ensures(Multiplexer::new, (is_client,), fresh),
        call_ensures(Multiplexer::open_stream_with_priority, (mux, protocol, priority, channel), r),
        old(mux)@.next_id <= u32::MAX - 2,
    ensures
        fresh@.next_id == (if is_client {
            1u32
        } else {
            2
        }),
        fresh@.channels == Map::<u32, u64>::empty(),
        fresh@.priorities == Map::<u32, StreamPriority>::empty(),
        fresh@.last is None,
        r.0 == old(mux)@.next_id,
        final(mux)@.next_id == old(mux)@.next_id + 2,
        final(mux)@.channels == old(mux)@.channels.insert(r.0, channel),
        final(mux)@.priorities == old(mux)@.priorities.insert(r.0, priority),
        r.1.0 == priority,
        r.1.1 is OpenStream,
        r.1.1->OpenStream_0.stream_id == r.0,
        r.1.1->OpenStream_0.protocol == protocol,
        r.1.1->OpenStream_0.priority == priority,
        r.1.1->OpenStream_0.headers@.len() == 0,
        r.1.1->OpenStream_0.body_hint is None,
{
    let o = r.1.1->OpenStream_0;
    assert(crate::text::text_pairs(o.headers@).len() == o.headers@.len());
}

/// A stream that is opened without a priority is opened with the normal one.
pub proof fn law_opening_is_normal_by_default(
    mux: &mut Multiplexer,
    protocol: Protocol,
    channel: u64,
    r: (u32, PrioritizedFrame),
)
    requires
        call_ensures(Multiplexer::open_stream, (mux, protocol, channel), r),
        old(mux)@.next_id <= u32::MAX - 2,
    ensures
        r.0 == old(mux)@.next_id,
        final(mux)@.next_id == old(mux)@.next_id + 2,
        final(mux)@.channels == old(mux)@.channels.insert(r.0, channel),
        final(mux)@.priorities == old(mux)@.priorities.insert(r.0, StreamPriority::Normal),
        r.1.0 == StreamPriority::Normal,
        r.1.1 is OpenStream,
        r.1.1->OpenStream_0.stream_id == r.0,
        r.1.1->OpenStream_0.protocol == protocol,
        r.1.1->OpenStream_0.priority == StreamPriority::Normal,
{
}

/// Data and closes are sent at the priority of their stream, or at the normal one where it has
/// none; heartbeats and handshake acknowledgments at the highest; all else at the normal one. The
/// frame itself is not changed.
pub proof fn law_frames_are_sent_at_their_priority(
    mux: &Multiplexer,
    frame: Frame,
    r: PrioritizedFrame,
)
    requires
        call_ensures(Multiplexer::prioritize, (mux, frame), r),
    ensures
        r.1 == frame,
        frame is Heartbeat || frame is HandshakeAck <==> r.0 == StreamPriority::Critical && !(
        frame is Data || frame is CloseStream),
        frame matches Frame::Data { stream_id, .. } ==> r.0 == (if mux@.priorities.contains_key(
            stream_id,
        ) {
            mux@.priorities[stream_id]
        } else {
            StreamPriority::Normal
        }),
        frame matches Frame::CloseStream { stream_id, .. } ==> r.0 == (
        if mux@.priorities.contains_key(stream_id) {
            mux@.priorities[stream_id]
        } else {
            StreamPriority::Normal
        }),
        !(frame is Heartbeat || frame is HandshakeAck || frame is Data || frame is CloseStream)
            ==> r.0 == StreamPriority::Normal,
{
}

/// A stream that could not be queued, or whose channel is gone, is taken out, and no other is.
pub proof fn law_undelivered_stream_is_taken_out(
    mux: &mut Multiplexer,
    again: &mut Multiplexer,
    stream_id: u32,
)
    requires
        call_ensures(Multiplexer::stream_not_queued, (mux, stream_id), ()),
        call_ensures(Multiplexer::data_not_delivered, (again, stream_id), ()),
    ensures
        final(mux)@.channels == old(mux)@.channels.remove(stream_id),
        final(again)@.channels == old(again)@.channels.remove(stream_id),
{
}

/// A send succeeds exactly where the frame was queued; where the channel is closed it fails in the
/// channel's words.
pub proof fn law_send_succeeds_where_it_was_queued(
    outcome: SendOutcome,
    r: Result<(), TunnelError>,
)
    requires
        call_ensures(send_result, (outcome,), r),
    ensures
        r is Ok <==> outcome is Sent,
        r matches Err(e) ==> e is Io,
        outcome matches SendOutcome::Closed(why) ==> r is Err && r->Err_0->Io_0@ == why@,
{
}

/// Frames of the stream that was looked up last go to the channel that it had then.
pub proof fn law_last_stream_is_known_by_its_channel(
    mux: &mut Multiplexer,
    frame: Frame,
    stream_id: u32,
    channel: u64,
    fresh: u64,
    r: FrameAction,
)
    requires
        call_ensures(Multiplexer::process_frame, (mux, frame, fresh), r),
        old(mux)@.last == Some((stream_id, channel)),
    ensures
        frame is Data && frame->Data_stream_id == stream_id ==> r == (FrameAction::DeliverData {
            stream_id,
            channel,
            frame,
        }),
        frame is CloseStream && frame->CloseStream_stream_id == stream_id ==> r == (
        FrameAction::DeliverClose { channel, frame }),
{
}

/// Every frame can be handled, and a stream opened, in every state.
pub proof fn law_any_frame_can_be_handled(
    mux: &mut Multiplexer,
    frame: Frame,
    fresh: u64,
    protocol: Protocol,
    priority: StreamPriority,
)
    ensures
        call_requires(Multiplexer::process_frame, (mux, frame, fresh)),
        call_requires(Multiplexer::open_stream_with_priority, (mux, protocol, priority, fresh)),
        call_requires(Multiplexer::open_stream, (mux, protocol, fresh)),
{
}

} // verus!
