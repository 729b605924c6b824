//! Protocol frame definitions.

use vstd::prelude::*;

use crate::text::{opt_text, same_text, text_pairs, texts};

verus! {

/// Stream priority, from Low, the lowest, to Critical, the highest. Used to schedule sends:
/// Critical goes first, then High, Normal, Low.
#[derive(Debug, Clone, Copy, PartialEq, Eq, Ord, Structural)]
pub enum StreamPriority {
    /// Highest (heartbeats, critical control).
    Critical,
    /// High priority (control, latency-sensitive).
    High,
    /// Default, best effort.
    Normal,
    /// Low priority (bulk data).
    Low,
}

impl Default for StreamPriority {
    fn default() -> (r: StreamPriority)
        ensures
            r == StreamPriority::Normal,
    {
        StreamPriority::Normal
    }
}

impl StreamPriority {
    /// The number of the priority: 0 is the lowest, 3 the highest.
    pub open spec fn code(self) -> u8 {
        match self {
            StreamPriority::Low => 0,
            StreamPriority::Normal => 1,
            StreamPriority::High => 2,
            StreamPriority::Critical => 3,
        }
    }

    /// The place of the priority in the sending order: lower is sent first.
    pub open spec fn order(self) -> u8 {
        match self {
            StreamPriority::Critical => 0,
            StreamPriority::High => 1,
            StreamPriority::Normal => 2,
            StreamPriority::Low => 3,
        }
    }

    /// The number of the priority: 0 is the lowest, 3 the highest.
    pub fn as_u8(self) -> (r: u8)
        ensures
            r == self.code(),
    {
        match self {
            StreamPriority::Low => 0,
            StreamPriority::Normal => 1,
            StreamPriority::High => 2,
            StreamPriority::Critical => 3,
        }
    }

    /// Drain order for the batched sender: lower value is sent first.
    pub fn drain_order(self) -> (r: u8)
        ensures
            r == self.order(),
    {
        match self {
            StreamPriority::Critical => 0,
            StreamPriority::High => 1,
            StreamPriority::Normal => 2,
            StreamPriority::Low => 3,
        }
    }
}

/// A lower priority has a lower number, and is sent later: numbers run against the sending
/// order.
pub proof fn law_lower_priority_has_lower_number(p: StreamPriority, q: StreamPriority)
    ensures
        p.order() > q.order() <==> p.code() < q.code(),
        p.code() <= 3,
        StreamPriority::Low.code() == 0,
        StreamPriority::Critical.code() == 3,
{
}

impl PartialOrd for StreamPriority {
    /// Compares priorities by their places in the sending order.
    fn partial_cmp(&self, other: &StreamPriority) -> (r: Option<std::cmp::Ordering>) {
        let mine: u8 = self.drain_order();
        let theirs: u8 = other.drain_order();
        if mine < theirs {
            Some(std::cmp::Ordering::Less)
        } else if mine == theirs {
            Some(std::cmp::Ordering::Equal)
        } else {
            Some(std::cmp::Ordering::Greater)
        }
    }
}

impl vstd::std_specs::cmp::PartialOrdSpecImpl for StreamPriority {
    open spec fn obeys_partial_cmp_spec() -> bool {
        true
    }

    open spec fn partial_cmp_spec(&self, other: &StreamPriority) -> Option<std::cmp::Ordering> {
        if self.order() < other.order() {
            Some(std::cmp::Ordering::Less)
        } else if self.order() == other.order() {
            Some(std::cmp::Ordering::Equal)
        } else {
            Some(std::cmp::Ordering::Greater)
        }
    }
}

/// Handshake status codes.
#[derive(Debug, Clone, Copy, PartialEq, Eq, Structural)]
pub enum HandshakeStatus {
    Success,
    InvalidToken,
    UnsupportedVersion,
    VersionMismatch,
    RateLimited,
    TunnelIdTaken,
}

/// Registration status codes.
#[derive(Debug, Clone, Copy, PartialEq, Eq, Structural)]
pub enum RegisterStatus {
    Success,
    ServiceNameTaken,
    InvalidServiceName,
    QuotaExceeded,
}

/// Stream status codes.
#[derive(Debug, Clone, Copy, PartialEq, Eq, Structural)]
pub enum StreamStatus {
    Accepted,
    Rejected,
    BackpressureApplied,
}

/// Supported protocols.
#[derive(Debug, Clone, Copy, PartialEq, Eq, Structural)]
pub enum Protocol {
    HTTP,
    HTTPS,
    HTTP2,
    WebSocket,
    GRPC,
    TCP,
    QUIC,
}

/// Error codes carried by an error frame.
#[derive(Debug, Clone, Copy, PartialEq, Eq, Structural)]
pub enum ErrorCode {
    ProtocolError,
    AuthenticationFailed,
    SessionNotFound,
    StreamNotFound,
    Timeout,
    InternalServerError,
    ServiceUnavailable,
}

/// Why a stream was closed.
#[derive(Debug, Clone, PartialEq, Eq)]
pub enum CloseReason {
    Normal,
    Timeout,
    Error(String),
    LocalServiceUnreachable,
    ProtocolViolation,
}

/// What a [`CloseReason`] says.
#[allow(inconsistent_fields)]
pub enum CloseReasonView {
    Normal,
    Timeout,
    Error(Seq<char>),
    LocalServiceUnreachable,
    ProtocolViolation,
}

impl View for CloseReason {
    type V = CloseReasonView;

    open spec fn view(&self) -> CloseReasonView {
        match self {
            CloseReason::Normal => CloseReasonView::Normal,
            CloseReason::Timeout => CloseReasonView::Timeout,
            CloseReason::Error(m) => CloseReasonView::Error(m@),
            CloseReason::LocalServiceUnreachable => CloseReasonView::LocalServiceUnreachable,
            CloseReason::ProtocolViolation => CloseReasonView::ProtocolViolation,
        }
    }
}

/// The map that a list of pairs stands for; a later pair replaces an earlier one.
pub open spec fn pairs_map(pairs: Seq<(Seq<char>, Seq<char>)>) -> Map<Seq<char>, Seq<char>>
    decreases pairs.len(),
{
    if pairs.len() == 0 {
        Map::empty()
    } else {
        pairs_map(pairs.drop_last()).insert(pairs.last().0, pairs.last().1)
    }
}

/// Whether no two pairs of a list have the same key.
pub open spec fn distinct_keys(pairs: Seq<(Seq<char>, Seq<char>)>) -> bool {
    forall|i: int, j: int| 0 <= i < j < pairs.len() ==> pairs[i].0 != pairs[j].0
}

/// The keys of [`pairs_map`] are the keys of the list.
pub proof fn lemma_pairs_map_keys(pairs: Seq<(Seq<char>, Seq<char>)>)
    ensures
        forall|k: Seq<char>| #[trigger]
            pairs_map(pairs).contains_key(k) <==> exists|i: int|
                0 <= i < pairs.len() && #[trigger] pairs[i].0 == k,
    decreases pairs.len(),
{
    if pairs.len() > 0 {
        let init = pairs.drop_last();
        lemma_pairs_map_keys(init);
        assert forall|k: Seq<char>| #[trigger] pairs_map(pairs).contains_key(k) implies exists|i: int|
            0 <= i < pairs.len() && #[trigger] pairs[i].0 == k by {
            if k == pairs.last().0 {
                assert(pairs[pairs.len() - 1].0 == k);
            } else {
                assert(pairs_map(init).contains_key(k));
                let i = choose|i: int| 0 <= i < init.len() && #[trigger] init[i].0 == k;
                assert(pairs[i].0 == k);
            }
        }
        assert forall|k: Seq<char>|
            (exists|i: int| 0 <= i < pairs.len() && #[trigger] pairs[i].0 == k) implies #[trigger] pairs_map(
            pairs,
        ).contains_key(k) by {
            let i = choose|i: int| 0 <= i < pairs.len() && #[trigger] pairs[i].0 == k;
            if i < pairs.len() - 1 {
                assert(init[i].0 == k);
                assert(pairs_map(init).contains_key(k));
            }
        }
    }
}

/// With distinct keys, [`pairs_map`] gives each key the value that stands beside it.
pub proof fn lemma_pairs_map_value(pairs: Seq<(Seq<char>, Seq<char>)>, i: int)
    requires
        distinct_keys(pairs),
        0 <= i < pairs.len(),
    ensures
        pairs_map(pairs).contains_key(pairs[i].0),
        pairs_map(pairs)[pairs[i].0] == pairs[i].1,
    decreases pairs.len(),
{
    let init = pairs.drop_last();
    if i < pairs.len() - 1 {
        assert(distinct_keys(init)) by {
            assert forall|a: int, b: int| 0 <= a < b < init.len() implies init[a].0
                != init[b].0 by {
                assert(pairs[a].0 != pairs[b].0);
            }
        }
        lemma_pairs_map_value(init, i);
        assert(init[i] == pairs[i]);
        assert(pairs[i].0 != pairs[pairs.len() - 1].0);
    }
}

/// With distinct keys, [`pairs_map`] has as many keys as the list has pairs.
pub proof fn lemma_pairs_map_len(pairs: Seq<(Seq<char>, Seq<char>)>)
    requires
        distinct_keys(pairs),
    ensures
        pairs_map(pairs).dom().finite(),
        pairs_map(pairs).dom().len() == pairs.len(),
    decreases pairs.len(),
{
    if pairs.len() > 0 {
        let init = pairs.drop_last();
        assert forall|a: int, b: int| 0 <= a < b < init.len() implies init[a].0 != init[b].0 by {
            assert(pairs[a].0 != pairs[b].0);
        }
        lemma_pairs_map_len(init);
        lemma_pairs_map_keys(init);
        let k = pairs.last().0;
        assert(!pairs_map(init).contains_key(k)) by {
            if pairs_map(init).contains_key(k) {
                let i = choose|i: int| 0 <= i < init.len() && #[trigger] init[i].0 == k;
                assert(pairs[i].0 != pairs[pairs.len() - 1].0);
            }
        }
        assert(pairs_map(pairs).dom() =~= pairs_map(init).dom().insert(k));
    } else {
        assert(pairs_map(pairs).dom() =~= Set::empty());
    }
}

/// Service metadata: names with one value each.
#[derive(Debug)]
pub struct Metadata {
    entries: Vec<(String, String)>,
}

impl View for Metadata {
    type V = Map<Seq<char>, Seq<char>>;

    open spec fn view(&self) -> Map<Seq<char>, Seq<char>> {
        pairs_map(self.pairs())
    }
}

impl Metadata {
    /// The entries in the order in which they are kept.
    pub closed spec fn pairs(&self) -> Seq<(Seq<char>, Seq<char>)> {
        text_pairs(self.entries@)
    }

    #[verifier::type_invariant]
    pub closed spec fn inv(&self) -> bool {
        distinct_keys(text_pairs(self.entries@))
    }

    /// Metadata without entries.
    pub fn new() -> (r: Metadata)
        ensures
            r@ == Map::<Seq<char>, Seq<char>>::empty(),
            r.pairs().len() == 0,
    {
        Metadata { entries: Vec::new() }
    }

    /// Metadata with the given entries, no two of which have the same name.
    pub fn from_entries(entries: Vec<(String, String)>) -> (r: Metadata)
        requires
            distinct_keys(text_pairs(entries@)),
        ensures
            r@ == pairs_map(text_pairs(entries@)),
            r.pairs() == text_pairs(entries@),
    {
        Metadata { entries }
    }

    /// The number of entries.
    pub fn len(&self) -> (r: usize)
        ensures
            r == self.pairs().len(),
            distinct_keys(self.pairs()),
            self@.dom().finite(),
            r == self@.dom().len(),
    {
        proof {
            use_type_invariant(self);
            lemma_pairs_map_len(self.pairs());
        }
        self.entries.len()
    }

    /// The name and value of the entry at `i`.
    pub fn entry(&self, i: usize) -> (r: (&str, &str))
        requires
            i < self.pairs().len(),
        ensures
            r.0@ == self.pairs()[i as int].0,
            r.1@ == self.pairs()[i as int].1,
    {
        let e = &self.entries[i];
        (e.0.as_str(), e.1.as_str())
    }

    /// The value under `key`.
    pub fn get(&self, key: &str) -> (r: Option<&str>)
        ensures
            r is Some <==> self@.contains_key(key@),
            r matches Some(v) ==> v@ == self@[key@],
    {
        proof {
            use_type_invariant(self);
            lemma_pairs_map_keys(self.pairs());
        }
        let mut i: usize = 0;
        while i < self.entries.len()
            invariant
                i <= self.entries@.len(),
                self.pairs() == text_pairs(self.entries@),
                self@ == pairs_map(self.pairs()),
                distinct_keys(self.pairs()),
                forall|j: int| 0 <= j < i ==> (#[trigger] self.pairs()[j]).0 != key@,
            decreases self.entries@.len() - i,
        {
            let e = &self.entries[i];
            if same_text(e.0.as_str(), key) {
                proof {
                    lemma_pairs_map_value(self.pairs(), i as int);
                }
                return Some(e.1.as_str());
            }
            i += 1;
        }
        None
    }

    /// Sets the value under `key`.
    pub fn insert(&mut self, key: String, value: String)
        ensures
            final(self)@ == old(self)@.insert(key@, value@),
    {
        proof {
            use_type_invariant(&*self);
        }
        let ghost before = self.pairs();
        let mut i: usize = 0;
        while i < self.entries.len()
            invariant
                i <= self.entries@.len(),
                self.pairs() == before,
                old(self)@ == pairs_map(before),
                before == text_pairs(self.entries@),
                distinct_keys(before),
                forall|j: int| 0 <= j < i ==> (#[trigger] before[j]).0 != key@,
            decreases self.entries@.len() - i,
        {
            if same_text(self.entries[i].0.as_str(), key.as_str()) {
                proof {
                    lemma_update_map(before, i as int, value@);
                    lemma_update_distinct(before, i as int, value@);
                }
                let mut entries: Vec<(String, String)> = Vec::new();
                core::mem::swap(&mut entries, &mut self.entries);
                entries[i] = (key, value);
                proof {
                    assert(before[i as int].0 == key@);
                    assert(text_pairs(entries@) =~= before.update(
                        i as int,
                        (before[i as int].0, value@),
                    ));
                }
                self.entries = entries;
                return;
            }
            i += 1;
        }
        let mut entries: Vec<(String, String)> = Vec::new();
        core::mem::swap(&mut entries, &mut self.entries);
        entries.push((key, value));
        proof {
            assert(text_pairs(entries@) =~= before.push((key@, value@)));
            let after = before.push((key@, value@));
            assert(after.drop_last() =~= before);
            assert(distinct_keys(after));
        }
        self.entries = entries;
    }
}

impl Clone for Metadata {
    fn clone(&self) -> (r: Metadata)
        ensures
            r@ == self@,
            r.pairs() == self.pairs(),
    {
        proof {
            use_type_invariant(self);
        }
        let mut entries: Vec<(String, String)> = Vec::new();
        let mut i: usize = 0;
        while i < self.entries.len()
            invariant
                i <= self.entries@.len(),
                text_pairs(entries@) == text_pairs(self.entries@).take(i as int),
            decreases self.entries@.len() - i,
        {
            let e = &self.entries[i];
            let ghost copied = text_pairs(entries@);
            entries.push((e.0.clone(), e.1.clone()));
            proof {
                assert(text_pairs(entries@) =~= copied.push((e.0@, e.1@)));
                assert(text_pairs(self.entries@).take(i + 1) =~= copied.push((e.0@, e.1@)));
            }
            i += 1;
        }
        proof {
            assert(text_pairs(entries@) =~= text_pairs(self.entries@));
        }
        Metadata { entries }
    }
}

impl PartialEq for Metadata {
    fn eq(&self, other: &Metadata) -> (r: bool) {
        proof {
            use_type_invariant(self);
            use_type_invariant(other);
            lemma_pairs_map_len(self.pairs());
            lemma_pairs_map_len(other.pairs());
            lemma_pairs_map_keys(self.pairs());
        }
        if self.entries.len() != other.entries.len() {
            return false;
        }
        let mut i: usize = 0;
        while i < self.entries.len()
            invariant
                i <= self.entries@.len(),
                self.pairs() == text_pairs(self.entries@),
                self@ == pairs_map(self.pairs()),
                distinct_keys(self.pairs()),
                forall|j: int|
                    0 <= j < i ==> other@.contains_key((#[trigger] self.pairs()[j]).0)
                        && other@[self.pairs()[j].0] == self.pairs()[j].1,
            decreases self.entries@.len() - i,
        {
            let e = &self.entries[i];
            proof {
                lemma_pairs_map_value(self.pairs(), i as int);
            }
            match other.get(e.0.as_str()) {
                None => {
                    return false;
                },
                Some(v) => {
                    if !same_text(v, e.1.as_str()) {
                        return false;
                    }
                },
            }
            i += 1;
        }
        proof {
            assert(self@.dom().subset_of(other@.dom()));
            vstd::set_lib::lemma_subset_equality(self@.dom(), other@.dom());
            assert forall|k: Seq<char>| self@.contains_key(k) implies self@[k] == other@[k] by {
                let j = choose|j: int|
                    0 <= j < self.pairs().len() && #[trigger] self.pairs()[j].0 == k;
                lemma_pairs_map_value(self.pairs(), j);
            }
            assert(self@ =~= other@);
        }
        true
    }
}

impl vstd::std_specs::cmp::PartialEqSpecImpl for Metadata {
    open spec fn obeys_eq_spec() -> bool {
        true
    }

    open spec fn eq_spec(&self, other: &Metadata) -> bool {
        self@ == other@
    }
}

proof fn lemma_update_distinct(pairs: Seq<(Seq<char>, Seq<char>)>, i: int, value: Seq<char>)
    requires
        distinct_keys(pairs),
        0 <= i < pairs.len(),
    ensures
        distinct_keys(pairs.update(i, (pairs[i].0, value))),
{
    let after = pairs.update(i, (pairs[i].0, value));
    assert forall|a: int, b: int| 0 <= a < b < after.len() implies after[a].0 != after[b].0 by {
        assert(pairs[a].0 != pairs[b].0);
    }
}

proof fn lemma_update_map(pairs: Seq<(Seq<char>, Seq<char>)>, i: int, value: Seq<char>)
    requires
        distinct_keys(pairs),
        0 <= i < pairs.len(),
    ensures
        pairs_map(pairs.update(i, (pairs[i].0, value))) == pairs_map(pairs).insert(
            pairs[i].0,
            value,
        ),
    decreases pairs.len(),
{
    let after = pairs.update(i, (pairs[i].0, value));
    let init = pairs.drop_last();
    if i == pairs.len() - 1 {
        assert(after.drop_last() =~= init);
        assert(pairs_map(after) =~= pairs_map(pairs).insert(pairs[i].0, value));
    } else {
        assert(after.drop_last() =~= init.update(i, (init[i].0, value)));
        assert(distinct_keys(init)) by {
            assert forall|a: int, b: int| 0 <= a < b < init.len() implies init[a].0
                != init[b].0 by {
                assert(pairs[a].0 != pairs[b].0);
            }
        }
        lemma_update_map(init, i, value);
        assert(pairs[i].0 != pairs[pairs.len() - 1].0);
        assert(pairs_map(after) =~= pairs_map(pairs).insert(pairs[i].0, value));
    }
}

/// Stream open request.
#[derive(Debug, Clone, PartialEq)]
pub struct OpenStreamFrame {
    pub stream_id: u32,
    pub protocol: Protocol,
    pub headers: Vec<(String, String)>,
    pub body_hint: Option<u64>,
    /// Priority for scheduling.
    pub priority: StreamPriority,
}

/// Handshake request.
#[derive(Debug, Clone, PartialEq)]
pub struct HandshakeFrame {
    pub token: String,
    pub tunnel_id: Option<String>,
    /// Oldest protocol version supported by this peer.
    pub min_version: u8,
    /// Newest protocol version supported by this peer.
    pub max_version: u8,
    pub capabilities: Vec<String>,
}

/// Wire protocol frame. Large variants are boxed to keep small frames small.
///
/// A session id is the number that the 16 bytes of its UUID form, most significant byte
/// first.
#[allow(inconsistent_fields)]
#[derive(Debug, Clone, PartialEq)]
pub enum Frame {
    /// Initial handshake from client to server.
    Handshake(Box<HandshakeFrame>),
    /// Handshake acknowledgment from server.
    HandshakeAck {
        session_id: u128,
        status: HandshakeStatus,
        /// Negotiated protocol version.
        version: u8,
        server_capabilities: Vec<String>,
    },
    /// Register a service.
    Register { service_name: String, protocol: Protocol, metadata: Metadata },
    /// Registration response.
    RegisterAck { public_url: String, status: RegisterStatus },
    /// Open a new stream.
    OpenStream(Box<OpenStreamFrame>),
    /// Stream acknowledgment.
    StreamAck { stream_id: u32, status: StreamStatus },
    /// Data frame.
    Data { stream_id: u32, data: Vec<u8>, end_of_stream: bool },
    /// Close a stream.
    CloseStream { stream_id: u32, reason: CloseReason },
    /// Heartbeat ping.
    Heartbeat { timestamp: u64 },
    /// Heartbeat acknowledgment.
    HeartbeatAck { timestamp: u64 },
    /// Error frame.
    Error { stream_id: Option<u32>, code: ErrorCode, message: String },
    /// Plugin data.
    PluginData { plugin_id: String, data: Vec<u8> },
}

/// What a [`Frame`] says, free of how its text and bytes are stored.
#[allow(inconsistent_fields)]
pub enum FrameView {
    Handshake {
        token: Seq<char>,
        tunnel_id: Option<Seq<char>>,
        min_version: u8,
        max_version: u8,
        capabilities: Seq<Seq<char>>,
    },
    HandshakeAck {
        session_id: u128,
        status: HandshakeStatus,
        version: u8,
        server_capabilities: Seq<Seq<char>>,
    },
    Register {
        service_name: Seq<char>,
        protocol: Protocol,
        metadata: Map<Seq<char>, Seq<char>>,
    },
    RegisterAck { public_url: Seq<char>, status: RegisterStatus },
    OpenStream {
        stream_id: u32,
        protocol: Protocol,
        headers: Seq<(Seq<char>, Seq<char>)>,
        body_hint: Option<u64>,
        priority: StreamPriority,
    },
    StreamAck { stream_id: u32, status: StreamStatus },
    Data { stream_id: u32, data: Seq<u8>, end_of_stream: bool },
    CloseStream { stream_id: u32, reason: CloseReasonView },
    Heartbeat { timestamp: u64 },
    HeartbeatAck { timestamp: u64 },
    Error { stream_id: Option<u32>, code: ErrorCode, message: Seq<char> },
    PluginData { plugin_id: Seq<char>, data: Seq<u8> },
}

impl View for Frame {
    type V = FrameView;

    open spec fn view(&self) -> FrameView {
        match self {
            Frame::Handshake(h) => FrameView::Handshake {
                token: h.token@,
                tunnel_id: opt_text(h.tunnel_id),
                min_version: h.min_version,
                max_version: h.max_version,
                capabilities: texts(h.capabilities@),
            },
            Frame::HandshakeAck { session_id, status, version, server_capabilities } =>
                FrameView::HandshakeAck {
                session_id: *session_id,
                status: *status,
                version: *version,
                server_capabilities: texts(server_capabilities@),
            },
            Frame::Register { service_name, protocol, metadata } => FrameView::Register {
                service_name: service_name@,
                protocol: *protocol,
                metadata: metadata@,
            },
            Frame::RegisterAck { public_url, status } => FrameView::RegisterAck {
                public_url: public_url@,
                status: *status,
            },
            Frame::OpenStream(o) => FrameView::OpenStream {
                stream_id: o.stream_id,
                protocol: o.protocol,
                headers: text_pairs(o.headers@),
                body_hint: o.body_hint,
                priority: o.priority,
            },
            Frame::StreamAck { stream_id, status } => FrameView::StreamAck {
                stream_id: *stream_id,
                status: *status,
            },
            Frame::Data { stream_id, data, end_of_stream } => FrameView::Data {
                stream_id: *stream_id,
                data: data@,
                end_of_stream: *end_of_stream,
            },
            Frame::CloseStream { stream_id, reason } => FrameView::CloseStream {
                stream_id: *stream_id,
                reason: reason@,
            },
            Frame::Heartbeat { timestamp } => FrameView::Heartbeat { timestamp: *timestamp },
            Frame::HeartbeatAck { timestamp } => FrameView::HeartbeatAck { timestamp: *timestamp },
            Frame::Error { stream_id, code, message } => FrameView::Error {
                stream_id: *stream_id,
                code: *code,
                message: message@,
            },
            Frame::PluginData { plugin_id, data } => FrameView::PluginData {
                plugin_id: plugin_id@,
                data: data@,
            },
        }
    }
}

/// A data frame that borrows its payload from the buffer it was parsed from.
#[derive(Debug, Clone, Copy)]
pub enum ZeroCopyFrame<'a> {
    Data { stream_id: u32, data: &'a [u8], fin: bool },
}

impl<'a> View for ZeroCopyFrame<'a> {
    type V = FrameView;

    open spec fn view(&self) -> FrameView {
        match self {
            ZeroCopyFrame::Data { stream_id, data, fin } => FrameView::Data {
                stream_id: *stream_id,
                data: data@,
                end_of_stream: *fin,
            },
        }
    }
}

impl<'a> ZeroCopyFrame<'a> {
    /// Converts to an owned [`Frame`], copying the payload.
    pub fn to_owned(self) -> (r: Frame)
        ensures
            r@ == self@,
    {
        match self {
            ZeroCopyFrame::Data { stream_id, data, fin } => {
                let copy: Vec<u8> = vstd::slice::slice_to_vec(data);
                proof {
                    assert(copy@ =~= data@);
                }
                Frame::Data { stream_id, data: copy, end_of_stream: fin }
            },
        }
    }
}

/// Priorities are numbered from the lowest and sent from the highest, and nothing said is normal.
pub proof fn law_priorities_are_ranked(
    p: StreamPriority,
    number: u8,
    place: u8,
    usual: StreamPriority,
)
    requires
        call_ensures(StreamPriority::as_u8, (p,), number),
        call_ensures(StreamPriority::drain_order, (p,), place),
        call_ensures(StreamPriority::default, (), usual),
    ensures
        number == (match p {
            StreamPriority::Low => 0u8,
            StreamPriority::Normal => 1,
            StreamPriority::High => 2,
            StreamPriority::Critical => 3,
        }),
        number + place == 3,
        usual == StreamPriority::Normal,
{
}

/// What was put into metadata under a key is found under it, and under every other key what was
/// found before; new metadata has nothing under any.
pub proof fn law_metadata_keeps_one_value_for_each_key(
    metadata: &mut Metadata,
    key: String,
    value: String,
    asked: &str,
    before: Option<&str>,
    after: Option<&str>,
    fresh: Metadata,
    fresh_len: usize,
    of_fresh: Option<&str>,
)
    requires
        call_ensures(Metadata::insert, (metadata, key, value), ()),
        call_ensures(Metadata::get, (&*old(metadata), asked), before),
        call_ensures(Metadata::get, (&*final(metadata), asked), after),
        call_ensures(Metadata::new, (), fresh),
        call_ensures(Metadata::len, (&fresh,), fresh_len),
        call_ensures(Metadata::get, (&fresh, asked), of_fresh),
    ensures
        asked@ == key@ ==> after is Some && (after->0)@ == value@,
        asked@ != key@ ==> (before is Some <==> after is Some) && (before is Some ==> (before->0)@
            == (after->0)@),
        fresh_len == 0,
        of_fresh is None,
{
}

/// An owned data frame has the stream, the bytes and the end of the borrowed one.
pub proof fn law_owned_frame_is_the_borrowed_one(
    stream_id: u32,
    data: &[u8],
    fin: bool,
    r: Frame,
)
    requires
        call_ensures(ZeroCopyFrame::to_owned, (ZeroCopyFrame::Data { stream_id, data, fin },), r),
    ensures
        r is Data,
        r->Data_stream_id == stream_id,
        r->Data_data@ == data@,
        r->Data_end_of_stream == fin,
{
}

} // verus!
