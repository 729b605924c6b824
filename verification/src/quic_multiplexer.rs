//! Multiplexing over QUIC, where each data stream is a QUIC stream of its own, and the choice
//! between it and the frame-based multiplexer.
//!
//! A data stream starts with a header of six bytes: protocol, priority and stream id.

use vstd::prelude::*;

use crate::codec::{be32_bytes, put_be32, read_be32};
use crate::error::TunnelError;
use crate::frame::{Protocol, StreamPriority};
use crate::multiplexer::{Multiplexer, MultiplexerView, PrioritizedFrame, first_id, id_after,
    with_stream};
use crate::rate_limit::{RateLimitError, SessionRateLimiter};
use crate::text::{append_decimal, decimal_text};

verus! {

/// Size of the header of a data stream.
pub const STREAM_HEADER_SIZE: usize = 6;

/// The byte that stands for a protocol.
pub open spec fn protocol_byte(p: Protocol) -> u8 {
    match p {
        Protocol::HTTP => 0,
        Protocol::HTTPS => 1,
        Protocol::HTTP2 => 2,
        Protocol::WebSocket => 3,
        Protocol::GRPC => 4,
        Protocol::TCP => 5,
        Protocol::QUIC => 6,
    }
}

/// The byte that stands for a protocol.
pub fn protocol_to_u8(p: Protocol) -> (r: u8)
    ensures
        r == protocol_byte(p),
{
    match p {
        Protocol::HTTP => 0,
        Protocol::HTTPS => 1,
        Protocol::HTTP2 => 2,
        Protocol::WebSocket => 3,
        Protocol::GRPC => 4,
        Protocol::TCP => 5,
        Protocol::QUIC => 6,
    }
}

/// The protocol that a byte stands for; a byte that stands for none is handed back.
pub fn u8_to_protocol(v: u8) -> (r: Result<Protocol, u8>)
    ensures
        r matches Ok(p) ==> protocol_byte(p) == v,
        r is Ok <==> v <= 6,
        r matches Err(e) ==> e == v,
{
    match v {
        0 => Ok(Protocol::HTTP),
        1 => Ok(Protocol::HTTPS),
        2 => Ok(Protocol::HTTP2),
        3 => Ok(Protocol::WebSocket),
        4 => Ok(Protocol::GRPC),
        5 => Ok(Protocol::TCP),
        6 => Ok(Protocol::QUIC),
        _ => Err(v),
    }
}

/// The priority that a byte stands for; a byte that stands for none is handed back.
pub fn u8_to_priority(v: u8) -> (r: Result<StreamPriority, u8>)
    ensures
        r matches Ok(p) ==> p.code() == v,
        r is Ok <==> v <= 3,
        r matches Err(e) ==> e == v,
{
    match v {
        0 => Ok(StreamPriority::Low),
        1 => Ok(StreamPriority::Normal),
        2 => Ok(StreamPriority::High),
        3 => Ok(StreamPriority::Critical),
        _ => Err(v),
    }
}

/// What the header of a data stream says.
#[derive(Debug, Clone, Copy, PartialEq, Eq, Structural)]
pub struct StreamHeader {
    pub protocol: Protocol,
    pub priority: StreamPriority,
    pub stream_id: u32,
}

/// The six bytes of a header.
pub open spec fn header_bytes(header: StreamHeader) -> Seq<u8> {
    seq![protocol_byte(header.protocol), header.priority.code()] + be32_bytes(
        header.stream_id as nat,
    )
}

/// Writes the header of a data stream.
pub fn encode_stream_header(header: StreamHeader) -> (r: Vec<u8>)
    ensures
        r@ == header_bytes(header),
        r@.len() == 6,
{
    let mut out: Vec<u8> = Vec::new();
    out.push(protocol_to_u8(header.protocol));
    out.push(header.priority.as_u8());
    put_be32(&mut out, header.stream_id);
    proof {
        assert(out@ =~= header_bytes(header));
    }
    out
}

fn invalid_byte(what: &str, v: u8) -> (r: TunnelError)
    ensures
        r is Protocol,
        r.text() == "invalid "@ + what@ + " byte in QUIC stream header: "@ + decimal_text(v as nat),
{
    let mut text = "invalid ".to_owned();
    text.append(what);
    text.append(" byte in QUIC stream header: ");
    append_decimal(&mut text, v as u64);
    TunnelError::Protocol(text)
}

/// Reads the header of a data stream.
pub fn decode_stream_header(bytes: &[u8]) -> (r: Result<StreamHeader, TunnelError>)
    requires
        bytes@.len() == 6,
    ensures
        r is Ok <==> bytes@[0] <= 6 && bytes@[1] <= 3,
        r matches Ok(h) ==> header_bytes(h) == bytes@,
        r matches Err(e) ==> e is Protocol && e.text() == "invalid "@ + (if bytes@[0] > 6 {
            "protocol"@
        } else {
            "priority"@
        }) + " byte in QUIC stream header: "@ + decimal_text(
            (if bytes@[0] > 6 {
                bytes@[0]
            } else {
                bytes@[1]
            }) as nat,
        ),
{
    let protocol = match u8_to_protocol(bytes[0]) {
        Ok(p) => p,
        Err(v) => {
            return Err(invalid_byte("protocol", v));
        },
    };
    let priority = match u8_to_priority(bytes[1]) {
        Ok(p) => p,
        Err(v) => {
            return Err(invalid_byte("priority", v));
        },
    };
    let stream_id: u32 = read_be32(vstd::slice::slice_subrange(bytes, 2, 6));
    let header = StreamHeader { protocol, priority, stream_id };
    proof {
        crate::codec::lemma_be32_back(bytes@.subrange(2, 6));
        assert(bytes@ =~= bytes@.take(2) + bytes@.subrange(2, 6));
        assert(header_bytes(header) =~= bytes@);
    }
    Ok(header)
}

/// Two headers with the same bytes say the same, so that reading what was written for a
/// header gives that header.
pub proof fn law_stream_header_reads_back(a: StreamHeader, b: StreamHeader)
    requires
        header_bytes(a) == header_bytes(b),
    ensures
        a == b,
{
    let x = header_bytes(a);
    let y = header_bytes(b);
    assert(x[0] == protocol_byte(a.protocol) && y[0] == protocol_byte(b.protocol));
    assert(x[1] == a.priority.code() && y[1] == b.priority.code());
    crate::codec::lemma_be32(a.stream_id as nat, Seq::empty());
    crate::codec::lemma_be32(b.stream_id as nat, Seq::empty());
    assert(x.subrange(2, 6) =~= be32_bytes(a.stream_id as nat) + Seq::<u8>::empty());
    assert(y.subrange(2, 6) =~= be32_bytes(b.stream_id as nat) + Seq::<u8>::empty());
}

/// The bookkeeping of a QUIC connection: its stream ids and its rate limiter.
pub struct QuicMultiplexer {
    next_stream_id: u32,
    rate_limiter: Option<SessionRateLimiter>,
}

impl QuicMultiplexer {
    /// The id of the next stream opened here.
    pub closed spec fn next_id(&self) -> u32 {
        self.next_stream_id
    }

    /// The rate limiter that streams opened here are metered with.
    pub closed spec fn limiter(&self) -> Option<SessionRateLimiter> {
        self.rate_limiter
    }

    /// Creates the bookkeeping of a connection. A client opens streams with odd ids, a server
    /// with even ones.
    pub fn new(is_client: bool) -> (r: QuicMultiplexer)
        ensures
            r.next_id() == first_id(is_client),
            r.limiter() is None,
    {
        QuicMultiplexer {
            next_stream_id: if is_client {
                1
            } else {
                2
            },
            rate_limiter: None,
        }
    }

    /// Meters streams opened here with `limiter`. Without one they are not metered.
    pub fn with_rate_limiter(self, limiter: SessionRateLimiter) -> (r: QuicMultiplexer)
        ensures
            r.next_id() == self.next_id(),
            r.limiter() == Some(limiter),
    {
        QuicMultiplexer { next_stream_id: self.next_stream_id, rate_limiter: Some(limiter) }
    }

    /// The rate limiter that streams opened here are metered with.
    pub fn rate_limiter(&self) -> (r: Option<&SessionRateLimiter>)
        ensures
            r is Some <==> self.limiter() is Some,
            r matches Some(l) ==> self.limiter() == Some(*l),
    {
        self.rate_limiter.as_ref()
    }

    /// Gives out a stream id. Fails, and starts no new round, where the ids are used up.
    pub fn allocate_stream_id(&mut self) -> (r: Result<u32, TunnelError>)
        ensures
            r is Ok <==> old(self).next_id() <= u32::MAX - 2,
            r matches Ok(id) ==> id == old(self).next_id() && final(self).next_id() == id + 2,
            r matches Err(e) ==> e is Protocol && e.text() == "stream ID space exhausted"@
                && final(self).next_id() == old(self).next_id(),
            final(self).limiter() == old(self).limiter(),
    {
        let id: u32 = self.next_stream_id;
        if id > u32::MAX - 2 {
            return Err(TunnelError::Protocol("stream ID space exhausted".to_owned()));
        }
        self.next_stream_id = id + 2;
        Ok(id)
    }

    /// Opens a data stream with the default priority: its id and the header that it starts
    /// with.
    pub fn open_stream(&mut self, protocol: Protocol) -> (r: Result<(u32, Vec<u8>), TunnelError>)
        ensures
            r is Ok <==> old(self).next_id() <= u32::MAX - 2,
            r matches Ok((id, header)) ==> id == old(self).next_id() && final(self).next_id() == id
                + 2 && header@ == header_bytes(
                StreamHeader { protocol, priority: StreamPriority::Normal, stream_id: id },
            ),
            r matches Err(e) ==> e is Protocol && e.text() == "stream ID space exhausted"@
                && final(self).next_id() == old(self).next_id(),
            final(self).limiter() == old(self).limiter(),
    {
        self.open_stream_with_priority(protocol, StreamPriority::Normal)
    }

    /// Opens a data stream: its id and the header that it starts with.
    pub fn open_stream_with_priority(&mut self, protocol: Protocol, priority: StreamPriority) -> (r:
        Result<(u32, Vec<u8>), TunnelError>)
        ensures
            r is Ok <==> old(self).next_id() <= u32::MAX - 2,
            r matches Ok((id, header)) ==> id == old(self).next_id() && final(self).next_id() == id
                + 2 && header@ == header_bytes(StreamHeader { protocol, priority, stream_id: id }),
            r matches Err(e) ==> e is Protocol && e.text() == "stream ID space exhausted"@
                && final(self).next_id() == old(self).next_id(),
            final(self).limiter() == old(self).limiter(),
    {
        let stream_id: u32 = match self.allocate_stream_id() {
            Ok(id) => id,
            Err(e) => {
                return Err(e);
            },
        };
        let header = encode_stream_header(StreamHeader { protocol, priority, stream_id });
        Ok((stream_id, header))
    }
}

/// QUIC stream ids never repeat: each that is given out is larger than the one before.
pub proof fn law_quic_ids_grow(before: u32)
    requires
        before <= u32::MAX - 2,
    ensures
        id_after(before) > before,
        id_after(before) % 2 == before % 2,
{
}

/// A stream that was opened over either transport.
pub enum OpenedStream {
    /// A stream of the frame-based multiplexer, and the frame that tells the peer.
    Tcp { stream_id: u32, announcement: PrioritizedFrame },
    /// A QUIC stream, the header that it starts with, and the budget it is metered with.
    Quic { stream_id: u32, header: Vec<u8>, limiter: Option<SessionRateLimiter> },
}

/// The multiplexer of a session, over either transport.
pub enum AnyMultiplexer {
    Tcp(Multiplexer),
    Quic(QuicMultiplexer),
}

impl AnyMultiplexer {
    /// Opens a new outbound stream; over TCP it is given the channel `channel`.
    ///
    /// Over QUIC a session's rate limits apply here: the opening is checked, and the stream
    /// carries the byte budget. Over TCP they apply where frames pass.
    pub fn open_stream(&mut self, protocol: Protocol, channel: u64) -> (r: Result<
        OpenedStream,
        TunnelError,
    >)
        ensures
            match (*old(self), *final(self)) {
                (AnyMultiplexer::Tcp(a), AnyMultiplexer::Tcp(b)) => (r matches Ok(
                    OpenedStream::Tcp { stream_id, announcement },
                ) && stream_id == a@.next_id && announcement.0 == StreamPriority::Normal
                    && announcement.1@ == (crate::frame::FrameView::OpenStream {
                    stream_id,
                    protocol,
                    headers: Seq::empty(),
                    body_hint: None,
                    priority: StreamPriority::Normal,
                }) && b@ == with_stream(
                    MultiplexerView { next_id: id_after(stream_id), ..a@ },
                    stream_id,
                    channel,
                    StreamPriority::Normal,
                )),
                (AnyMultiplexer::Quic(a), AnyMultiplexer::Quic(b)) => {
                    &&& a.limiter() is None && a.next_id() <= u32::MAX - 2 ==> r is Ok
                    &&& a.next_id() > u32::MAX - 2 ==> r is Err
                    &&& r matches Ok(opened) ==> quic_opened(a, b, protocol, opened) && (
                    a.limiter() matches Some(limiter) ==> limiter.may_open(true))
                    &&& r matches Err(e) ==> {
                        &&& b.next_id() == a.next_id()
                        &&& b.limiter() == a.limiter()
                        &&& if e is ServiceUnavailable {
                            a.limiter() matches Some(limiter) && limiter.may_open(false)
                                && e.text() == "stream open rate limited"@
                        } else {
                            e is Protocol && e.text() == "stream ID space exhausted"@
                                && a.next_id() > u32::MAX - 2 && (a.limiter() matches Some(
                                limiter,
                            ) ==> limiter.may_open(true))
                        }
                    }
                },
                _ => false,
            },
    {
        match self {
            AnyMultiplexer::Tcp(m) => {
                let (stream_id, announcement) = m.open_stream(protocol, channel);
                Ok(OpenedStream::Tcp { stream_id, announcement })
            },
            AnyMultiplexer::Quic(m) => {
                let answer: Option<Result<(), RateLimitError>> = match m.rate_limiter() {
                    Some(limiter) => Some(limiter.check_stream_open()),
                    None => None,
                };
                open_quic_stream(m, protocol, answer)
            },
        }
    }
}

/// Whether `opened` is a stream that was opened at `before` and left `after`.
pub open spec fn quic_opened(
    before: QuicMultiplexer,
    after: QuicMultiplexer,
    protocol: Protocol,
    opened: OpenedStream,
) -> bool {
    &&& opened matches OpenedStream::Quic { stream_id, header, limiter } && stream_id
        == before.next_id() && header@ == header_bytes(
        StreamHeader { protocol, priority: StreamPriority::Normal, stream_id },
    ) && limiter == before.limiter()
    &&& after.next_id() == before.next_id() + 2
    &&& after.limiter() == before.limiter()
}

/// Opens a QUIC stream for what the session's rate limiter answered, where it has one.
pub fn open_quic_stream(
    m: &mut QuicMultiplexer,
    protocol: Protocol,
    answer: Option<Result<(), RateLimitError>>,
) -> (r: Result<OpenedStream, TunnelError>)
    ensures
        r is Ok <==> !(answer matches Some(Err(_))) && old(m).next_id() <= u32::MAX - 2,
        r matches Ok(opened) ==> quic_opened(*old(m), *final(m), protocol, opened),
        r is Err ==> final(m).next_id() == old(m).next_id() && final(m).limiter() == old(m).limiter(),
        answer matches Some(Err(e)) ==> r is Err && r->Err_0 is ServiceUnavailable
            && r->Err_0.text() == e.text(),
        r is Err && !(answer matches Some(Err(_))) ==> r->Err_0 is Protocol && r->Err_0.text()
            == "stream ID space exhausted"@,
{
    if let Some(Err(e)) = answer {
        return Err(e.into_tunnel_error());
    }
    let limiter: Option<SessionRateLimiter> = match m.rate_limiter() {
        Some(l) => Some(l.clone()),
        None => None,
    };
    match m.open_stream(protocol) {
        Ok((stream_id, header)) => Ok(OpenedStream::Quic { stream_id, header, limiter }),
        Err(e) => Err(e),
    }
}

/// The header of a data stream is six bytes: the number of its protocol, the number of its priority
/// and its stream id, most significant byte first; and it reads back as what was written.
pub proof fn law_header_is_laid_out_and_read_back(
    header: StreamHeader,
    bytes: Vec<u8>,
    read: &[u8],
    r: Result<StreamHeader, TunnelError>,
)
    requires
        call_ensures(encode_stream_header, (header,), bytes),
        read@ == bytes@,
        call_ensures(decode_stream_header, (read,), r),
    ensures
        bytes@.len() == 6,
        bytes@[0] == (match header.protocol {
            Protocol::HTTP => 0u8,
            Protocol::HTTPS => 1,
            Protocol::HTTP2 => 2,
            Protocol::WebSocket => 3,
            Protocol::GRPC => 4,
            Protocol::TCP => 5,
            Protocol::QUIC => 6,
        }),
        bytes@[1] == (match header.priority {
            StreamPriority::Low => 0u8,
            StreamPriority::Normal => 1,
            StreamPriority::High => 2,
            StreamPriority::Critical => 3,
        }),
        bytes@[2] as int == header.stream_id as int / 0x100_0000 % 256,
        bytes@[3] as int == header.stream_id as int / 0x1_0000 % 256,
        bytes@[4] as int == header.stream_id as int / 0x100 % 256,
        bytes@[5] as int == header.stream_id as int % 256,
        r == Ok::<StreamHeader, TunnelError>(header),
{
    let h = r->Ok_0;
    assert(r is Ok);
    law_stream_header_reads_back(h, header);
}

/// A header with a byte that stands for no protocol, or for no priority, is refused; any other is
/// read.
pub proof fn law_header_with_unknown_bytes_is_refused(
    bytes: &[u8],
    r: Result<StreamHeader, TunnelError>,
    v: u8,
    protocol: Result<Protocol, u8>,
    priority: Result<StreamPriority, u8>,
)
    requires
        bytes@.len() == 6,
        call_ensures(decode_stream_header, (bytes,), r),
        call_ensures(u8_to_protocol, (v,), protocol),
        call_ensures(u8_to_priority, (v,), priority),
    ensures
        r is Ok <==> bytes@[0] <= 6 && bytes@[1] <= 3,
        r matches Err(e) ==> e is Protocol,
        protocol is Err <==> v > 6,
        priority is Err <==> v > 3,
        v == 4 ==> protocol == Ok::<Protocol, u8>(Protocol::GRPC),
        v == 5 ==> protocol == Ok::<Protocol, u8>(Protocol::TCP),
        v == 0 ==> priority == Ok::<StreamPriority, u8>(StreamPriority::Low),
        v == 3 ==> priority == Ok::<StreamPriority, u8>(StreamPriority::Critical),
{
}

/// The ids of streams over QUIC start at one for a client and at two for a server and go up by two;
/// where the next would not fit, opening fails and nothing is given out.
pub proof fn law_quic_streams_open_in_turn(
    is_client: bool,
    fresh: QuicMultiplexer,
    mux: &mut QuicMultiplexer,
    protocol: Protocol,
    priority: StreamPriority,
    r: Result<(u32, Vec<u8>), TunnelError>,
    header: StreamHeader,
    bytes: Vec<u8>,
)
    requires
        call_ensures(QuicMultiplexer::new, (is_client,), fresh),
        call_ensures(QuicMultiplexer::open_stream_with_priority, (mux, protocol, priority), r),
        header == (StreamHeader { protocol, priority, stream_id: old(mux).next_id() }),
        call_ensures(encode_stream_header, (header,), bytes),
    ensures
        fresh.next_id() == (if is_client {
            1u32
        } else {
            2
        }),
        fresh.limiter() is None,
        r is Ok <==> old(mux).next_id() as int + 2 <= u32::MAX,
        r matches Ok((id, h)) ==> id == old(mux).next_id() && final(mux).next_id() == id + 2 && h@
            == bytes@,
        r matches Err(e) ==> e is Protocol && final(mux).next_id() == old(mux).next_id(),
        final(mux).limiter() == old(mux).limiter(),
{
}

/// A stream over QUIC that the limiter refuses is not opened, and takes no id; any other starts with
/// its header, at the normal priority, and is held to the session's budget.
pub proof fn law_quic_stream_is_opened_within_the_limits(
    mux: &mut QuicMultiplexer,
    protocol: Protocol,
    answer: Option<Result<(), RateLimitError>>,
    r: Result<OpenedStream, TunnelError>,
    header: StreamHeader,
    bytes: Vec<u8>,
)
    requires
        call_ensures(open_quic_stream, (mux, protocol, answer), r),
        header == (StreamHeader {
            protocol,
            priority: StreamPriority::Normal,
            stream_id: old(mux).next_id(),
        }),
        call_ensures(encode_stream_header, (header,), bytes),
    ensures
        answer is Some && answer->0 is Err ==> r is Err && r->Err_0 is ServiceUnavailable,
        !(answer is Some && answer->0 is Err) && old(mux).next_id() as int + 2 <= u32::MAX ==> {
            &&& r is Ok
            &&& r->Ok_0 is Quic
            &&& r->Ok_0->Quic_stream_id == old(mux).next_id()
            &&& r->Ok_0->Quic_header@ == bytes@
            &&& r->Ok_0->Quic_limiter == old(mux).limiter()
            &&& final(mux).next_id() == old(mux).next_id() + 2
        },
        r is Err ==> final(mux).next_id() == old(mux).next_id(),
{
}

/// Over either transport a stream is opened with the id that is next: over TCP it is announced to the
/// peer and known by its channel, over QUIC without a limiter it starts with its header.
pub proof fn law_streams_open_over_either_transport(
    mux: &mut AnyMultiplexer,
    protocol: Protocol,
    channel: u64,
    r: Result<OpenedStream, TunnelError>,
)
    requires
        call_ensures(AnyMultiplexer::open_stream, (mux, protocol, channel), r),
    ensures
        *old(mux) matches AnyMultiplexer::Tcp(a) ==> {
            &&& r is Ok && r->Ok_0 is Tcp
            &&& r->Ok_0->Tcp_stream_id == a@.next_id
            &&& r->Ok_0->Tcp_announcement.1 is OpenStream
            &&& r->Ok_0->Tcp_announcement.1->OpenStream_0.stream_id == a@.next_id
            &&& r->Ok_0->Tcp_announcement.1->OpenStream_0.protocol == protocol
            &&& *final(mux) is Tcp
            &&& final(mux)->Tcp_0@.channels == a@.channels.insert(a@.next_id, channel)
        },
        *old(mux) matches AnyMultiplexer::Quic(a) ==> {
            &&& *final(mux) is Quic
            &&& a.limiter() is None && a.next_id() as int + 2 <= u32::MAX ==> r is Ok
            &&& r is Ok ==> r->Ok_0 is Quic && r->Ok_0->Quic_stream_id == a.next_id()
                && r->Ok_0->Quic_limiter == a.limiter() && r->Ok_0->Quic_header@.len() == 6
            &&& r is Err ==> final(mux)->Quic_0.next_id() == a.next_id()
            &&& a.limiter() matches Some(l) ==> exists|answer: crate::rate_limit::Admission| #[trigger]
                l.answers_opening(answer) && (answer == crate::rate_limit::Admission::Admitted
                    ==> (r is Ok <==> a.next_id() as int + 2 <= u32::MAX)) && (answer
                    != crate::rate_limit::Admission::Admitted ==> r is Err)
        },
{
}

/// A connection is held to the limiter that it was given, and to none before.
pub proof fn law_limiter_is_the_one_given(
    mux: QuicMultiplexer,
    limiter: SessionRateLimiter,
    set: QuicMultiplexer,
    r: Option<&SessionRateLimiter>,
)
    requires
        call_ensures(QuicMultiplexer::with_rate_limiter, (mux, limiter), set),
        call_ensures(QuicMultiplexer::rate_limiter, (&set,), r),
    ensures
        r is Some && *r->0 == limiter,
        set.next_id() == mux.next_id(),
{
}

} // verus!
