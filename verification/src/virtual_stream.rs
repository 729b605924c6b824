//! A virtual stream of the multiplexer: what a read hands out, what a write sends.
//!
//! Whoever runs the stream owns its channels. It asks the stream what is buffered, hands it
//! what was received, and sends what the stream gives it.

use vstd::prelude::*;

use crate::error::TunnelError;
use crate::frame::{CloseReason, CloseReasonView, Frame, FrameView, Protocol, StreamPriority};
use crate::multiplexer::{PrioritizedFrame, SendOutcome, send_complaint, send_result};

verus! {

/// Most bytes that one data frame carries. Larger writes are sent in chunks.
pub const MAX_DATA_FRAME_PAYLOAD: usize = 65536;

/// The lesser of two numbers.
pub open spec fn lesser(a: nat, b: nat) -> nat {
    if a <= b {
        a
    } else {
        b
    }
}

fn least(a: usize, b: usize) -> (r: usize)
    ensures
        r == lesser(a as nat, b as nat),
{
    if a <= b {
        a
    } else {
        b
    }
}

fn take_prefix(data: &[u8], n: usize) -> (r: Vec<u8>)
    requires
        n <= data@.len(),
    ensures
        r@ == data@.take(n as int),
{
    let r = vstd::slice::slice_to_vec(vstd::slice::slice_subrange(data, 0, n));
    proof {
        assert(r@ =~= data@.take(n as int));
    }
    r
}

/// What came out of a stream's channel.
#[derive(Debug, PartialEq)]
pub enum Received {
    /// A frame.
    Frame(Frame),
    /// An error that ends the stream.
    Failed(TunnelError),
    /// The channel is closed.
    Closed,
}

/// What a read gives its caller.
#[derive(Debug, PartialEq)]
pub enum ReadOutcome {
    /// These bytes; none of them at the end of the stream.
    Ready(Vec<u8>),
    /// Nothing yet.
    Pending,
    /// An error.
    Failed(String),
}

/// What shutting a stream down asks for next.
#[derive(Debug, PartialEq)]
pub enum ShutdownStep {
    /// Wait for the send that is under way.
    Wait,
    /// Send this frame, and report its end.
    Send(PrioritizedFrame),
}

/// A virtual stream.
pub struct VirtualStream {
    stream_id: u32,
    priority: StreamPriority,
    protocol: Protocol,
    read_buffer: Vec<u8>,
    read_buffer_pos: usize,
    read_buffer_bytes: Option<Vec<u8>>,
    sending: bool,
    pending_send_len: usize,
}

impl VirtualStream {
    #[verifier::type_invariant]
    closed spec fn inv(&self) -> bool {
        self.read_buffer_pos <= self.read_buffer@.len()
    }

    /// The stream's id.
    pub closed spec fn stream(&self) -> u32 {
        self.stream_id
    }

    /// The priority at which the stream sends.
    pub closed spec fn level(&self) -> StreamPriority {
        self.priority
    }

    /// The protocol that the stream carries.
    pub closed spec fn carries(&self) -> Protocol {
        self.protocol
    }

    /// What is left of the data frame that was received last.
    pub closed spec fn frame_rest(&self) -> Seq<u8> {
        match self.read_buffer_bytes {
            Some(b) => b@,
            None => Seq::empty(),
        }
    }

    /// What is left of the read buffer that the stream was created with.
    pub closed spec fn pool_rest(&self) -> Seq<u8> {
        self.read_buffer@.skip(self.read_buffer_pos as int)
    }

    /// The bytes that were received and not yet handed out, in order.
    pub open spec fn buffered(&self) -> Seq<u8> {
        self.frame_rest() + self.pool_rest()
    }

    /// The bytes from which the next read is served, where anything is buffered.
    pub open spec fn next_piece(&self) -> Seq<u8> {
        if self.frame_rest().len() > 0 {
            self.frame_rest()
        } else {
            self.pool_rest()
        }
    }

    /// Whether a send is under way, and for how many bytes.
    pub closed spec fn in_flight(&self) -> Option<usize> {
        if self.sending {
            Some(self.pending_send_len)
        } else {
            None
        }
    }

    /// Creates a stream with a read buffer from the pool; what the buffer holds is handed out
    /// first.
    pub fn new(
        stream_id: u32,
        priority: StreamPriority,
        read_buffer: Vec<u8>,
        protocol: Protocol,
    ) -> (r: VirtualStream)
        ensures
            r.stream() == stream_id,
            r.level() == priority,
            r.carries() == protocol,
            r.frame_rest().len() == 0,
            r.pool_rest() == read_buffer@,
            r.buffered() == read_buffer@,
            r.in_flight() is None,
    {
        let r = VirtualStream {
            stream_id,
            priority,
            protocol,
            read_buffer,
            read_buffer_pos: 0,
            read_buffer_bytes: None,
            sending: false,
            pending_send_len: 0,
        };
        proof {
            assert(r.pool_rest() =~= read_buffer@);
            assert(r.buffered() =~= read_buffer@);
        }
        r
    }

    /// The stream's id.
    pub fn id(&self) -> (r: u32)
        ensures
            r == self.stream(),
    {
        self.stream_id
    }

    /// The protocol that the stream carries.
    pub fn protocol(&self) -> (r: Protocol)
        ensures
            r == self.carries(),
    {
        self.protocol
    }

    /// Hands out buffered bytes, at most `room`; `None` where nothing is buffered and a frame
    /// is to be received.
    pub fn read_buffered(&mut self, room: usize) -> (r: Option<Vec<u8>>)
        ensures
            r is None <==> old(self).buffered().len() == 0,
            r matches Some(chunk) ==> chunk@ == old(self).next_piece().take(
                lesser(room as nat, old(self).next_piece().len()) as int,
            ),
            r matches Some(chunk) ==> chunk@ + final(self).buffered() == old(self).buffered(),
            r is None ==> final(self).buffered() == old(self).buffered(),
            final(self).stream() == old(self).stream(),
            final(self).level() == old(self).level(),
            final(self).carries() == old(self).carries(),
            final(self).in_flight() == old(self).in_flight(),
    {
        proof {
            use_type_invariant(&*self);
        }
        let ghost before = self.buffered();
        let ghost tail = self.read_buffer@.skip(self.read_buffer_pos as int);
        let mut held: Option<Vec<u8>> = None;
        core::mem::swap(&mut held, &mut self.read_buffer_bytes);
        match held {
            Some(bytes) => {
                if bytes.len() > 0 {
                    let len: usize = least(room, bytes.len());
                    let chunk = take_prefix(bytes.as_slice(), len);
                    if len < bytes.len() {
                        let rest = vstd::slice::slice_to_vec(
                            vstd::slice::slice_subrange(bytes.as_slice(), len, bytes.len()),
                        );
                        proof {
                            assert(chunk@ + (rest@ + tail) =~= before);
                        }
                        self.read_buffer_bytes = Some(rest);
                    } else {
                        proof {
                            assert(chunk@ + (Seq::<u8>::empty() + tail) =~= before);
                        }
                    }
                    return Some(chunk);
                }
                proof {
                    assert(before =~= tail);
                }
            },
            None => {
                proof {
                    assert(before =~= tail);
                }
            },
        }
        let remaining: usize = self.read_buffer.len() - self.read_buffer_pos;
        if remaining > 0 {
            let len: usize = least(room, remaining);
            let start: usize = self.read_buffer_pos;
            let chunk = vstd::slice::slice_to_vec(
                vstd::slice::slice_subrange(self.read_buffer.as_slice(), start, start + len),
            );
            let ghost buffer = self.read_buffer@;
            if start + len >= self.read_buffer.len() {
                let mut empty: Vec<u8> = Vec::new();
                self.read_buffer_pos = 0;
                core::mem::swap(&mut self.read_buffer, &mut empty);
                proof {
                    assert(chunk@ + (Seq::<u8>::empty() + self.read_buffer@.skip(0)) =~= before);
                }
            } else {
                self.read_buffer_pos = start + len;
                proof {
                    assert(chunk@ + (Seq::<u8>::empty() + buffer.skip(start + len)) =~= before);
                }
            }
            return Some(chunk);
        }
        proof {
            assert(self.buffered() =~= before);
        }
        None
    }

    /// Decides what a read gives its caller for what was received, with room for `room` bytes.
    ///
    /// Of data that does not fit, the rest is buffered. A close, or a closed channel, is the
    /// end of the stream; other frames are ignored.
    pub fn on_received(&mut self, received: Received, room: usize) -> (r: ReadOutcome)
        requires
            old(self).buffered().len() == 0,
        ensures
            match received {
                Received::Frame(Frame::Data { data, .. }) => (r matches ReadOutcome::Ready(chunk)
                    && chunk@ == data@.take(lesser(room as nat, data@.len()) as int) && chunk@
                    + final(self).buffered() == data@),
                Received::Frame(Frame::CloseStream { .. }) | Received::Closed => (
                r matches ReadOutcome::Ready(chunk) && chunk@.len() == 0)
                    && final(self).buffered().len() == 0,
                Received::Frame(_) => r == ReadOutcome::Pending && final(self).buffered().len()
                    == 0,
                Received::Failed(e) => (r matches ReadOutcome::Failed(m) && m@ == e.text())
                    && final(self).buffered().len() == 0,
            },
            final(self).stream() == old(self).stream(),
            final(self).level() == old(self).level(),
            final(self).carries() == old(self).carries(),
            final(self).in_flight() == old(self).in_flight(),
    {
        proof {
            use_type_invariant(&*self);
        }
        let ghost tail = self.read_buffer@.skip(self.read_buffer_pos as int);
        proof {
            assert(tail.len() == 0);
        }
        match received {
            Received::Frame(frame) => match frame {
                Frame::Data { data, .. } => {
                    let len: usize = least(room, data.len());
                    let chunk = take_prefix(data.as_slice(), len);
                    if len < data.len() {
                        let rest = vstd::slice::slice_to_vec(
                            vstd::slice::slice_subrange(data.as_slice(), len, data.len()),
                        );
                        proof {
                            assert(chunk@ + (rest@ + tail) =~= data@);
                        }
                        self.read_buffer_bytes = Some(rest);
                    } else {
                        proof {
                            assert(chunk@ + self.buffered() =~= data@);
                        }
                    }
                    ReadOutcome::Ready(chunk)
                },
                Frame::CloseStream { .. } => ReadOutcome::Ready(Vec::new()),
                _ => ReadOutcome::Pending,
            },
            Received::Failed(e) => ReadOutcome::Failed(e.message()),
            Received::Closed => ReadOutcome::Ready(Vec::new()),
        }
    }

    /// Starts a write: the frame to send carries the first bytes of `buf`, at most
    /// [`MAX_DATA_FRAME_PAYLOAD`].
    pub fn start_write(&mut self, buf: &[u8]) -> (r: PrioritizedFrame)
        requires
            old(self).in_flight() is None,
        ensures
            r.0 == old(self).level(),
            r.1@ == (FrameView::Data {
                stream_id: old(self).stream(),
                data: buf@.take(lesser(buf@.len(), MAX_DATA_FRAME_PAYLOAD as nat) as int),
                end_of_stream: false,
            }),
            final(self).in_flight() == Some(
                lesser(buf@.len(), MAX_DATA_FRAME_PAYLOAD as nat) as usize,
            ),
            final(self).stream() == old(self).stream(),
            final(self).level() == old(self).level(),
            final(self).carries() == old(self).carries(),
            final(self).buffered() == old(self).buffered(),
    {
        proof {
            use_type_invariant(&*self);
        }
        let chunk_size: usize = least(buf.len(), MAX_DATA_FRAME_PAYLOAD);
        let data = take_prefix(buf, chunk_size);
        let frame = Frame::Data { stream_id: self.stream_id, data, end_of_stream: false };
        self.pending_send_len = chunk_size;
        self.sending = true;
        (self.priority, frame)
    }

    /// Records how the send that was under way ended, and says what the write returns: the
    /// number of bytes that were sent.
    pub fn finish_write(&mut self, outcome: SendOutcome) -> (r: Result<usize, TunnelError>)
        requires
            old(self).in_flight() is Some,
        ensures
            r is Ok <==> send_complaint(outcome) is None,
            r matches Ok(n) ==> old(self).in_flight() == Some(n),
            r matches Err(e) ==> e is Io && send_complaint(outcome) == Some(e.text()),
            final(self).in_flight() is None,
            final(self).stream() == old(self).stream(),
            final(self).level() == old(self).level(),
            final(self).carries() == old(self).carries(),
            final(self).buffered() == old(self).buffered(),
    {
        proof {
            use_type_invariant(&*self);
        }
        let written: usize = self.pending_send_len;
        self.sending = false;
        self.pending_send_len = 0;
        match send_result(outcome) {
            Ok(()) => Ok(written),
            Err(e) => Err(e),
        }
    }

    /// The next step of a shutdown. A send that is under way is waited for, whatever its end;
    /// then a close is sent.
    ///
    /// `ended` says how the send that is under way ended, where it has.
    pub fn shutdown_step(&mut self, ended: Option<SendOutcome>) -> (r: ShutdownStep)
        ensures
            old(self).in_flight() is Some && ended is None ==> r == ShutdownStep::Wait
                && final(self).in_flight() == old(self).in_flight(),
            old(self).in_flight() is None || ended is Some ==> (r matches ShutdownStep::Send(
                (priority, frame),
            ) && priority == old(self).level() && frame@ == (FrameView::CloseStream {
                stream_id: old(self).stream(),
                reason: CloseReasonView::Normal,
            })) && final(self).in_flight() == Some(0usize),
            final(self).stream() == old(self).stream(),
            final(self).level() == old(self).level(),
            final(self).carries() == old(self).carries(),
            final(self).buffered() == old(self).buffered(),
    {
        proof {
            use_type_invariant(&*self);
        }
        if self.sending && ended.is_none() {
            return ShutdownStep::Wait;
        }
        self.sending = true;
        self.pending_send_len = 0;
        let frame = Frame::CloseStream { stream_id: self.stream_id, reason: CloseReason::Normal };
        ShutdownStep::Send((self.priority, frame))
    }
}

/// The payloads in which a buffer is sent when each write takes up where the last left off.
pub open spec fn write_chunks(buf: Seq<u8>) -> Seq<Seq<u8>>
    decreases buf.len(),
{
    if buf.len() == 0 {
        Seq::empty()
    } else {
        let n = lesser(buf.len(), MAX_DATA_FRAME_PAYLOAD as nat) as int;
        seq![buf.take(n)] + write_chunks(buf.skip(n))
    }
}

/// The bytes of a list of payloads, one after the other.
pub open spec fn joined(chunks: Seq<Seq<u8>>) -> Seq<u8>
    decreases chunks.len(),
{
    if chunks.len() == 0 {
        Seq::empty()
    } else {
        chunks[0] + joined(chunks.skip(1))
    }
}

/// Writing a buffer to its end sends exactly its bytes, in order, in payloads that are neither
/// empty nor larger than a data frame may carry.
pub proof fn law_writes_send_the_buffer(buf: Seq<u8>)
    ensures
        joined(write_chunks(buf)) == buf,
        forall|i: int|
            0 <= i < write_chunks(buf).len() ==> 0 < (#[trigger] write_chunks(buf)[i]).len()
                <= MAX_DATA_FRAME_PAYLOAD,
    decreases buf.len(),
{
    if buf.len() > 0 {
        let n = lesser(buf.len(), MAX_DATA_FRAME_PAYLOAD as nat) as int;
        let rest = write_chunks(buf.skip(n));
        law_writes_send_the_buffer(buf.skip(n));
        assert(write_chunks(buf).skip(1) =~= rest);
        assert(joined(write_chunks(buf)) =~= buf);
        assert forall|i: int| 0 <= i < write_chunks(buf).len() implies 0 < (
        #[trigger] write_chunks(buf)[i]).len() <= MAX_DATA_FRAME_PAYLOAD by {
            if i > 0 {
                assert(write_chunks(buf)[i] == rest[i - 1]);
            }
        }
    }
}

/// Where a stream stands between two reads: what was handed out, what is buffered, and the
/// payloads that are still to be received.
#[verifier::ext_equal]
pub struct Reading {
    pub handed_out: Seq<u8>,
    pub buffered: Seq<u8>,
    pub incoming: Seq<Seq<u8>>,
}

/// One read with room for `room` bytes: of what is buffered, and where nothing is, of the next
/// payload, whose rest is then buffered.
pub open spec fn read_once(state: Reading, room: nat) -> Reading {
    let source = if state.buffered.len() > 0 || state.incoming.len() == 0 {
        state.buffered
    } else {
        state.incoming[0]
    };
    let n = lesser(room, source.len()) as int;
    Reading {
        handed_out: state.handed_out + source.take(n),
        buffered: source.skip(n),
        incoming: if state.buffered.len() > 0 || state.incoming.len() == 0 {
            state.incoming
        } else {
            state.incoming.skip(1)
        },
    }
}

/// Reads with the rooms given, one after the other.
pub open spec fn read_many(state: Reading, rooms: Seq<nat>) -> Reading
    decreases rooms.len(),
{
    if rooms.len() == 0 {
        state
    } else {
        read_many(read_once(state, rooms[0]), rooms.skip(1))
    }
}

/// Whatever the sizes of the reads, no byte is lost, doubled or moved.
pub proof fn law_reads_keep_every_byte(state: Reading, rooms: Seq<nat>)
    ensures
        ({
            let after = read_many(state, rooms);
            after.handed_out + after.buffered + joined(after.incoming) == state.handed_out
                + state.buffered + joined(state.incoming)
        }),
    decreases rooms.len(),
{
    if rooms.len() > 0 {
        let next = read_once(state, rooms[0]);
        assert(next.handed_out + next.buffered + joined(next.incoming) =~= state.handed_out
            + state.buffered + joined(state.incoming));
        law_reads_keep_every_byte(next, rooms.skip(1));
    }
}

/// What one side writes is what the other side reads: reads of the payloads in which a buffer
/// was sent hand out a prefix of it, and all of it once nothing is left to read.
pub proof fn law_reader_gets_what_was_written(buf: Seq<u8>, rooms: Seq<nat>)
    ensures
        ({
            let start = Reading {
                handed_out: Seq::empty(),
                buffered: Seq::empty(),
                incoming: write_chunks(buf),
            };
            let after = read_many(start, rooms);
            &&& after.handed_out.is_prefix_of(buf)
            &&& after.buffered.len() == 0 && after.incoming.len() == 0 ==> after.handed_out == buf
        }),
{
    let start = Reading {
        handed_out: Seq::empty(),
        buffered: Seq::empty(),
        incoming: write_chunks(buf),
    };
    let after = read_many(start, rooms);
    law_writes_send_the_buffer(buf);
    law_reads_keep_every_byte(start, rooms);
    let rest = after.buffered + joined(after.incoming);
    assert(start.handed_out + start.buffered + joined(start.incoming) =~= buf);
    assert(after.handed_out + rest =~= buf);
    assert(after.handed_out =~= buf.take(after.handed_out.len() as int));
}

/// A write sends the first bytes of the buffer, as many as one data frame carries, on the stream
/// and at its priority, and reports their number once they are sent; else it fails as the send did.
pub proof fn law_write_sends_the_first_bytes(
    stream: &mut VirtualStream,
    buf: &[u8],
    frame: PrioritizedFrame,
    sent: &mut VirtualStream,
    outcome: SendOutcome,
    r: Result<usize, TunnelError>,
)
    requires
        old(stream).in_flight() is None,
        call_ensures(VirtualStream::start_write, (stream, buf), frame),
        *old(sent) == *final(stream),
        call_ensures(VirtualStream::finish_write, (sent, outcome), r),
    ensures
        ({
            let n = if buf@.len() <= 64 * 1024 {
                buf@.len() as int
            } else {
                65536
            };
            &&& frame.0 == old(stream).level()
            &&& frame.1 is Data
            &&& frame.1->Data_stream_id == old(stream).stream()
            &&& frame.1->Data_data@ == buf@.take(n)
            &&& !frame.1->Data_end_of_stream
            &&& outcome is Sent ==> r is Ok && r->Ok_0 == n
            &&& !(outcome is Sent) ==> r is Err && r->Err_0 is Io
            &&& final(sent).in_flight() is None
            &&& final(sent).buffered() == old(stream).buffered()
        }),
{
}

/// Of data that arrives, a read hands out what the caller has room for, and the next reads the rest,
/// in order. A close, or a closed channel, is the end of the stream; other frames say nothing, and
/// an error is handed on.
pub proof fn law_reads_hand_out_what_arrives(
    stream: &mut VirtualStream,
    received: Received,
    room: usize,
    first: ReadOutcome,
    later: &mut VirtualStream,
    later_room: usize,
    second: Option<Vec<u8>>,
)
    requires
        old(stream).buffered().len() == 0,
        call_ensures(VirtualStream::on_received, (stream, received, room), first),
        *old(later) == *final(stream),
        call_ensures(VirtualStream::read_buffered, (later, later_room), second),
    ensures
        received matches Received::Frame(Frame::Data { data, .. }) ==> {
            &&& first is Ready
            &&& data@.len() <= room ==> first->Ready_0@ == data@ && second is None
            &&& data@.len() > room ==> {
                &&& first->Ready_0@ == data@.take(room as int)
                &&& second is Some
                &&& (second->0)@.len() <= later_room
                &&& later_room > 0 ==> (second->0)@.len() > 0
                &&& first->Ready_0@ + (second->0)@ + final(later).buffered() == data@
            }
        },
        received matches Received::Frame(f) ==> {
            &&& f is CloseStream ==> first is Ready && first->Ready_0@.len() == 0 && second is None
            &&& !(f is CloseStream || f is Data) ==> first == ReadOutcome::Pending && second is None
        },
        received is Closed ==> first is Ready && first->Ready_0@.len() == 0 && second is None,
        received is Failed ==> first is Failed && second is None,
{
    if let Received::Frame(Frame::Data { data, .. }) = received {
        let chunk = first->Ready_0@;
        assert(chunk + final(stream).buffered() == data@);
        if data@.len() <= room {
            assert(data@.take(data@.len() as int) =~= data@);
            assert(final(stream).buffered().len() == 0);
        } else {
            assert(final(stream).buffered().len() > 0);
            let more = (second->0)@;
            assert(chunk + more + final(later).buffered() =~= chunk + (more
                + final(later).buffered()));
            assert(old(later).next_piece().len() > 0);
        }
    }
}

/// A shutdown waits for a send that is under way, and then sends a normal close on the stream, at
/// its priority, once.
pub proof fn law_shutdown_sends_a_close(
    stream: &mut VirtualStream,
    ended: Option<SendOutcome>,
    r: ShutdownStep,
)
    requires
        call_ensures(VirtualStream::shutdown_step, (stream, ended), r),
    ensures
        old(stream).in_flight() is Some && ended is None ==> r == ShutdownStep::Wait,
        old(stream).in_flight() is None || ended is Some ==> {
            &&& r is Send
            &&& r->Send_0.0 == old(stream).level()
            &&& r->Send_0.1 == (Frame::CloseStream {
                stream_id: old(stream).stream(),
                reason: CloseReason::Normal,
            })
            &&& final(stream).in_flight() is Some
        },
{
}

/// A new stream has the id, the priority and the protocol that it was made with, and hands out
/// first what its buffer holds.
pub proof fn law_new_stream_is_what_it_was_made(
    stream_id: u32,
    priority: StreamPriority,
    read_buffer: Vec<u8>,
    protocol: Protocol,
    stream: VirtualStream,
    id: u32,
    carried: Protocol,
)
    requires
        call_ensures(VirtualStream::new, (stream_id, priority, read_buffer, protocol), stream),
        call_ensures(VirtualStream::id, (&stream,), id),
        call_ensures(VirtualStream::protocol, (&stream,), carried),
    ensures
        id == stream_id,
        carried == protocol,
        stream.level() == priority,
        stream.buffered() == read_buffer@,
        stream.in_flight() is None,
{
}

} // verus!
