//! Batched frame sender: frames that wait together are ordered by priority, encoded and
//! written together.
//!
//! Whoever runs the sender collects the frames and owns the writer.

use vstd::prelude::*;

use crate::codec::{CodecError, FLAG_EOS, FRAME_TYPE_DATA, TunnelCodec, batch_frames,
    batch_refused, batch_rest, frame_bytes, frame_kind, frame_payload, frame_views, framing,
    law_batch_reads_written_frames, parse, put_be32, stream_bytes, wire_len};
use crate::error::TunnelError;
use crate::frame::{Frame, StreamPriority};
use crate::multiplexer::PrioritizedFrame;
use crate::validation::ValidationLimits;

verus! {

/// Maximum frames to batch before flushing.
pub const MAX_BATCH_SIZE: usize = 256;

/// Number of frames from which on it is worth waiting for more.
pub const MIN_FRAMES_FOR_BATCHING: usize = 2;

/// Whether a batch of `collected` frames has room for another.
pub fn batch_has_room(collected: usize) -> (r: bool)
    ensures
        r == (collected < 256),
{
    collected < MAX_BATCH_SIZE
}

/// Whether to let producers run once before a batch of `collected` frames is sent: a single
/// frame is sent at once, and a full batch too.
pub fn batch_should_yield(collected: usize) -> (r: bool)
    ensures
        r == (2 <= collected < 256),
{
    collected >= MIN_FRAMES_FOR_BATCHING && collected < MAX_BATCH_SIZE
}

/// The frames of a batch that are sent at place `order`, in the order in which they came.
pub open spec fn at_order(frames: Seq<PrioritizedFrame>, order: u8) -> Seq<PrioritizedFrame> {
    frames.filter(|f: PrioritizedFrame| f.0.order() == order)
}

/// A batch in the order in which it is sent: critical frames first, then those of high, normal
/// and low priority; frames of one priority in the order in which they came.
pub open spec fn sending_order(frames: Seq<PrioritizedFrame>) -> Seq<PrioritizedFrame> {
    at_order(frames, 0) + at_order(frames, 1) + at_order(frames, 2) + at_order(frames, 3)
}

proof fn lemma_at_order_front(first: PrioritizedFrame, rest: Seq<PrioritizedFrame>, order: u8)
    ensures
        at_order(seq![first] + rest, order) == if first.0.order() == order {
            seq![first] + at_order(rest, order)
        } else {
            at_order(rest, order)
        },
{
    let p = |f: PrioritizedFrame| f.0.order() == order;
    Seq::filter_distributes_over_add(seq![first], rest, p);
    reveal(Seq::filter);
    let one = seq![first];
    assert(one.drop_last() =~= Seq::empty());
    assert(Seq::<PrioritizedFrame>::empty().filter(p) =~= Seq::empty());
    if first.0.order() == order {
        assert(one.filter(p) =~= seq![first]);
    } else {
        assert(one.filter(p) =~= Seq::empty());
        assert(Seq::<PrioritizedFrame>::empty() + at_order(rest, order) =~= at_order(rest, order));
    }
}

fn pour(from: Vec<PrioritizedFrame>, into: &mut Vec<PrioritizedFrame>)
    ensures
        final(into)@ == old(into)@ + from@.reverse(),
{
    let ghost start = into@;
    let ghost all = from@;
    let mut from = from;
    proof {
        assert(into@ =~= start + all.skip(all.len() as int).reverse());
    }
    loop
        invariant
            from@.len() <= all.len(),
            from@ == all.take(from@.len() as int),
            into@ == start + all.skip(from@.len() as int).reverse(),
            start == old(into)@,
        ensures
            into@ == start + all.reverse(),
        decreases from@.len(),
    {
        let ghost n = from@.len() as int;
        match from.pop() {
            Some(x) => {
                into.push(x);
                proof {
                    assert(x == all[n - 1]);
                    assert(all.skip(n - 1) =~= seq![x] + all.skip(n));
                    assert(all.skip(n - 1).reverse() =~= all.skip(n).reverse().push(x));
                    assert(into@ =~= start + all.skip(n - 1).reverse());
                }
            },
            None => {
                proof {
                    assert(all.skip(0) =~= all);
                }
                break;
            },
        }
    }
}

/// Orders a batch for sending: critical first, then high, normal, low, each in the order in
/// which they came.
pub fn sort_by_priority(frames: Vec<PrioritizedFrame>) -> (r: Vec<PrioritizedFrame>)
    ensures
        r@ == sending_order(frames@),
{
    let ghost all = frames@;
    let mut frames = frames;
    let mut critical: Vec<PrioritizedFrame> = Vec::new();
    let mut high: Vec<PrioritizedFrame> = Vec::new();
    let mut normal: Vec<PrioritizedFrame> = Vec::new();
    let mut low: Vec<PrioritizedFrame> = Vec::new();
    proof {
        reveal(Seq::filter);
        assert(all.skip(all.len() as int) =~= Seq::empty());
        assert(critical@.reverse() =~= at_order(Seq::empty(), 0));
        assert(high@.reverse() =~= at_order(Seq::empty(), 1));
        assert(normal@.reverse() =~= at_order(Seq::empty(), 2));
        assert(low@.reverse() =~= at_order(Seq::empty(), 3));
    }
    loop
        invariant
            frames@.len() <= all.len(),
            frames@ == all.take(frames@.len() as int),
            critical@.reverse() == at_order(all.skip(frames@.len() as int), 0),
            high@.reverse() == at_order(all.skip(frames@.len() as int), 1),
            normal@.reverse() == at_order(all.skip(frames@.len() as int), 2),
            low@.reverse() == at_order(all.skip(frames@.len() as int), 3),
        ensures
            critical@.reverse() == at_order(all, 0),
            high@.reverse() == at_order(all, 1),
            normal@.reverse() == at_order(all, 2),
            low@.reverse() == at_order(all, 3),
        decreases frames@.len(),
    {
        let ghost n = frames@.len() as int;
        let ghost (c, h, m, l) = (critical@, high@, normal@, low@);
        match frames.pop() {
            Some(x) => {
                proof {
                    assert(x == all[n - 1]);
                    assert(all.skip(n - 1) =~= seq![x] + all.skip(n));
                    lemma_at_order_front(x, all.skip(n), 0);
                    lemma_at_order_front(x, all.skip(n), 1);
                    lemma_at_order_front(x, all.skip(n), 2);
                    lemma_at_order_front(x, all.skip(n), 3);
                }
                match x.0 {
                    StreamPriority::Critical => {
                        critical.push(x);
                        proof {
                            assert(critical@.reverse() =~= seq![x] + c.reverse());
                        }
                    },
                    StreamPriority::High => {
                        high.push(x);
                        proof {
                            assert(high@.reverse() =~= seq![x] + h.reverse());
                        }
                    },
                    StreamPriority::Normal => {
                        normal.push(x);
                        proof {
                            assert(normal@.reverse() =~= seq![x] + m.reverse());
                        }
                    },
                    StreamPriority::Low => {
                        low.push(x);
                        proof {
                            assert(low@.reverse() =~= seq![x] + l.reverse());
                        }
                    },
                }
            },
            None => {
                proof {
                    assert(all.skip(0) =~= all);
                }
                break;
            },
        }
    }
    let mut out: Vec<PrioritizedFrame> = Vec::new();
    pour(critical, &mut out);
    pour(high, &mut out);
    pour(normal, &mut out);
    pour(low, &mut out);
    proof {
        assert(out@ =~= sending_order(all));
    }
    out
}

/// The contents of a list of segments.
pub open spec fn segment_views(segments: Seq<Vec<u8>>) -> Seq<Seq<u8>> {
    Seq::new(segments.len(), |i: int| segments[i]@)
}

/// Encodes a frame as segments behind those in `out`: for a data frame its header and, where
/// it is not empty, its payload; for another frame all of it at once.
///
/// A frame that is too large leaves `out` alone.
pub fn encode_frame_segments(codec: &TunnelCodec, frame: Frame, out: &mut Vec<Vec<u8>>) -> (r: Result<
    (),
    CodecError,
>)
    ensures
        r is Ok <==> codec.fits(frame),
        r is Ok ==> segment_bytes(final(out)@) == segment_bytes(old(out)@) + frame_bytes(frame),
        r is Ok ==> segment_views(final(out)@) == segment_views(old(out)@) + frame_segments(frame),
        r is Err ==> final(out)@ == old(out)@,
        r matches Err(e) ==> (e matches CodecError::TooLarge { length, max } && max
            == codec.max_size() && (wire_len(frame) <= usize::MAX ==> length == wire_len(frame))),
{
    let ghost whole = frame_bytes(frame);
    let ghost before = out@;
    let max: usize = codec.max_frame_size();
    match frame {
        Frame::Data { stream_id, data, end_of_stream } => {
            if data.len() > usize::MAX - 6 {
                return Err(CodecError::TooLarge { length: usize::MAX, max });
            }
            let payload_len: usize = 6 + data.len();
            if payload_len > max {
                return Err(CodecError::TooLarge { length: payload_len, max });
            }
            let mut header: Vec<u8> = Vec::new();
            put_be32(&mut header, payload_len as u32);
            header.push(FRAME_TYPE_DATA);
            put_be32(&mut header, stream_id);
            header.push(
                if end_of_stream {
                    FLAG_EOS
                } else {
                    0
                },
            );
            proof {
                assert(header@ =~= whole.take(10));
                assert(data@ =~= whole.skip(10));
                lemma_segment_push(before, header);
            }
            out.push(header);
            let ghost middle = out@;
            if data.len() > 0 {
                proof {
                    lemma_segment_push(middle, data);
                }
                out.push(data);
                proof {
                    assert(segment_bytes(out@) =~= segment_bytes(before) + whole);
                    assert(segment_views(out@) =~= segment_views(before) + frame_segments(frame));
                }
            } else {
                proof {
                    assert(header@ =~= whole);
                    assert(segment_views(out@) =~= segment_views(before) + frame_segments(frame));
                }
            }
            Ok(())
        },
        control => {
            let mut buf: Vec<u8> = Vec::new();
            match codec.encode(&control, &mut buf) {
                Ok(()) => {
                    proof {
                        assert(buf@ =~= whole);
                        lemma_segment_push(before, buf);
                    }
                    out.push(buf);
                    proof {
                        assert(segment_views(out@) =~= segment_views(before) + frame_segments(
                            frame,
                        ));
                    }
                    Ok(())
                },
                Err(e) => Err(e),
            }
        },
    }
}

/// The segments in which a frame is written.
pub open spec fn frame_segments(frame: Frame) -> Seq<Seq<u8>> {
    match frame {
        Frame::Data { data, .. } => if data@.len() > 0 {
            seq![frame_bytes(frame).take(10), frame_bytes(frame).skip(10)]
        } else {
            seq![frame_bytes(frame)]
        },
        _ => seq![frame_bytes(frame)],
    }
}

/// The bytes of a list of segments, one after the other.
pub open spec fn segment_bytes(segments: Seq<Vec<u8>>) -> Seq<u8>
    decreases segments.len(),
{
    if segments.len() == 0 {
        Seq::empty()
    } else {
        segment_bytes(segments.drop_last()) + segments.last()@
    }
}

proof fn lemma_segment_push(segments: Seq<Vec<u8>>, last: Vec<u8>)
    ensures
        segment_bytes(segments.push(last)) == segment_bytes(segments) + last@,
{
    assert(segments.push(last).drop_last() =~= segments);
}

/// The frames of a batch that are small enough to be sent.
pub open spec fn sendable(frames: Seq<PrioritizedFrame>, max: nat) -> Seq<Frame>
    decreases frames.len(),
{
    if frames.len() == 0 {
        Seq::empty()
    } else if wire_len(frames[0].1) <= max {
        seq![frames[0].1] + sendable(frames.skip(1), max)
    } else {
        sendable(frames.skip(1), max)
    }
}

/// Orders and encodes a batch; frames that are too large are skipped.
///
/// Returns the segments to write, which together are the bytes of the frames in sending order.
pub fn assemble_batch(codec: &TunnelCodec, frames: Vec<PrioritizedFrame>) -> (r: Vec<Vec<u8>>)
    ensures
        segment_bytes(r@) == stream_bytes(
            sendable(sending_order(frames@), codec.max_size() as nat),
        ),
{
    let sorted = sort_by_priority(frames);
    let ghost all = sorted@;
    let ghost max = codec.max_size() as nat;
    let mut reversed: Vec<PrioritizedFrame> = Vec::new();
    pour(sorted, &mut reversed);
    let mut out: Vec<Vec<u8>> = Vec::new();
    proof {
        assert(reversed@ =~= all.reverse());
        assert(all.skip(0) =~= all);
        assert(segment_bytes(out@) + stream_bytes(sendable(all, max)) =~= stream_bytes(
            sendable(all, max),
        ));
    }
    loop
        invariant
            max == codec.max_size(),
            reversed@.len() <= all.len(),
            reversed@ == all.skip(all.len() - reversed@.len()).reverse(),
            segment_bytes(out@) + stream_bytes(
                sendable(all.skip(all.len() - reversed@.len()), max),
            ) == stream_bytes(sendable(all, max)),
        ensures
            segment_bytes(out@) == stream_bytes(sendable(all, max)),
        decreases reversed@.len(),
    {
        let ghost i = all.len() - reversed@.len();
        let ghost rest = all.skip(i);
        let ghost before = out@;
        let ghost left = reversed@;
        match reversed.pop() {
            Some((_, frame)) => {
                proof {
                    assert(left.last() == rest[0]);
                    assert(rest.skip(1) =~= all.skip(i + 1));
                    assert(reversed@ =~= all.skip(i + 1).reverse());
                }
                let ghost f = frame;
                match encode_frame_segments(codec, frame, &mut out) {
                    Ok(()) => {
                        proof {
                            let tail = sendable(rest.skip(1), max);
                            assert((seq![f] + tail).skip(1) =~= tail);
                            assert(segment_bytes(out@) + stream_bytes(tail) =~= segment_bytes(
                                before,
                            ) + (frame_bytes(f) + stream_bytes(tail)));
                        }
                    },
                    Err(_) => {},
                }
            },
            None => {
                proof {
                    assert(rest =~= Seq::empty());
                    assert(segment_bytes(out@) + Seq::<u8>::empty() =~= segment_bytes(out@));
                }
                break;
            },
        }
    }
    out
}

/// The bytes of a list of buffers from byte `offset` of buffer `index` on.
pub open spec fn unwritten(buffers: Seq<Vec<u8>>, index: int, offset: int) -> Seq<u8>
    decreases buffers.len() - index,
{
    if index < 0 || index >= buffers.len() {
        Seq::empty()
    } else {
        buffers[index]@.skip(offset) + unwritten(buffers, index + 1, 0)
    }
}

/// The bytes of the parts of a list of buffers that start at the given places.
pub open spec fn parts_bytes(buffers: Seq<Vec<u8>>, parts: Seq<(usize, usize)>) -> Seq<u8>
    decreases parts.len(),
{
    if parts.len() == 0 {
        Seq::empty()
    } else {
        parts_bytes(buffers, parts.drop_last()) + buffers[parts.last().0 as int]@.skip(
            parts.last().1 as int,
        )
    }
}

/// How far writing a list of buffers has come.
#[derive(Debug, Clone, Copy, PartialEq, Eq, Structural)]
pub struct WriteProgress {
    /// The buffer that is being written.
    pub index: usize,
    /// The number of its bytes that have been written.
    pub offset: usize,
}

impl WriteProgress {
    /// Whether the progress is one that writing `buffers` can have made.
    pub open spec fn within(&self, buffers: Seq<Vec<u8>>) -> bool {
        &&& self.index <= buffers.len()
        &&& self.index < buffers.len() ==> self.offset <= buffers[self.index as int]@.len()
        &&& self.index == buffers.len() ==> self.offset == 0
    }

    /// The bytes that are still to be written.
    pub open spec fn left(&self, buffers: Seq<Vec<u8>>) -> Seq<u8> {
        unwritten(buffers, self.index as int, self.offset as int)
    }

    /// Nothing has been written.
    pub fn new() -> (r: WriteProgress)
        ensures
            r == (WriteProgress { index: 0, offset: 0 }),
    {
        WriteProgress { index: 0, offset: 0 }
    }

    /// Passes over buffers of which nothing is left, and tells whether all is written.
    pub fn settle(&mut self, buffers: &Vec<Vec<u8>>) -> (r: bool)
        requires
            old(self).within(buffers@),
        ensures
            final(self).within(buffers@),
            final(self).left(buffers@) == old(self).left(buffers@),
            r <==> old(self).left(buffers@).len() == 0,
            r ==> final(self).index == buffers@.len(),
            !r ==> final(self).index < buffers@.len() && final(self).offset
                < buffers@[final(self).index as int]@.len(),
    {
        let ghost all = self.left(buffers@);
        while self.index < buffers.len() && self.offset >= buffers[self.index].len()
            invariant
                self.within(buffers@),
                self.left(buffers@) == all,
            decreases buffers@.len() - self.index,
        {
            proof {
                let i = self.index as int;
                assert(buffers@[i]@.skip(self.offset as int) =~= Seq::empty());
                assert(self.left(buffers@) =~= unwritten(buffers@, i + 1, 0));
            }
            self.index = self.index + 1;
            self.offset = 0;
        }
        self.index >= buffers.len()
    }

    /// The parts that are offered to the writer next: the rest of the buffer that is being
    /// written, and the buffers behind it that are not empty. Each is given by its buffer and
    /// the byte it starts at.
    pub fn parts(&self, buffers: &Vec<Vec<u8>>) -> (r: Vec<(usize, usize)>)
        requires
            self.within(buffers@),
        ensures
            parts_bytes(buffers@, r@) == self.left(buffers@),
            forall|i: int|
                0 <= i < r@.len() ==> (#[trigger] r@[i]).0 < buffers@.len() && r@[i].1
                    <= buffers@[r@[i].0 as int]@.len(),
    {
        let mut parts: Vec<(usize, usize)> = Vec::new();
        if self.index >= buffers.len() {
            return parts;
        }
        parts.push((self.index, self.offset));
        let ghost all = self.left(buffers@);
        let mut next: usize = self.index + 1;
        proof {
            assert(parts@.drop_last() =~= Seq::empty());
            assert(parts_bytes(buffers@, parts@.drop_last()) == Seq::<u8>::empty());
            assert(parts_bytes(buffers@, parts@) =~= buffers@[self.index as int]@.skip(
                self.offset as int,
            ));
            assert(parts_bytes(buffers@, parts@) + unwritten(buffers@, next as int, 0) =~= all);
        }
        while next < buffers.len()
            invariant
                self.index < next <= buffers@.len(),
                parts_bytes(buffers@, parts@) + unwritten(buffers@, next as int, 0) == all,
                forall|i: int|
                    0 <= i < parts@.len() ==> (#[trigger] parts@[i]).0 < buffers@.len()
                        && parts@[i].1 <= buffers@[parts@[i].0 as int]@.len(),
            decreases buffers@.len() - next,
        {
            let ghost before = parts@;
            proof {
                assert(buffers@[next as int]@.skip(0) =~= buffers@[next as int]@);
            }
            if buffers[next].len() > 0 {
                parts.push((next, 0));
                proof {
                    assert(parts@.drop_last() =~= before);
                }
            }
            proof {
                assert(parts_bytes(buffers@, parts@) + unwritten(buffers@, next + 1, 0) =~= all);
            }
            next += 1;
        }
        proof {
            assert(parts_bytes(buffers@, parts@) =~= all);
        }
        parts
    }

    /// Records that the writer took `written` bytes. A writer that takes none has failed.
    pub fn advance(&mut self, buffers: &Vec<Vec<u8>>, written: usize) -> (r: Result<(), TunnelError>)
        requires
            old(self).within(buffers@),
        ensures
            written == 0 <==> r is Err,
            r matches Err(e) ==> e is Io && e.text() == "Failed to write buffered frames"@
                && *final(self) == *old(self),
            r is Ok ==> final(self).within(buffers@) && final(self).left(buffers@) == (if written
                <= old(self).left(buffers@).len() {
                old(self).left(buffers@).skip(written as int)
            } else {
                Seq::empty()
            }),
    {
        if written == 0 {
            return Err(TunnelError::Io("Failed to write buffered frames".to_owned()));
        }
        let ghost all = self.left(buffers@);
        let mut remaining: usize = written;
        proof {
            assert(all =~= all.skip(0));
        }
        while remaining > 0 && self.index < buffers.len()
            invariant
                self.within(buffers@),
                remaining <= written,
                written - remaining <= all.len(),
                self.left(buffers@) == all.skip(written - remaining),
            decreases buffers@.len() - self.index, remaining,
        {
            let ghost left = self.left(buffers@);
            let ghost tail = unwritten(buffers@, self.index + 1, 0);
            let ghost here = buffers@[self.index as int]@.skip(self.offset as int);
            let ghost done = written - remaining;
            let available: usize = buffers[self.index].len() - self.offset;
            if remaining < available {
                proof {
                    assert(here.skip(remaining as int) =~= buffers@[self.index as int]@.skip(
                        self.offset + remaining,
                    ));
                    assert(here.skip(remaining as int) + tail =~= left.skip(remaining as int));
                    assert(left.skip(remaining as int) =~= all.skip(done + remaining));
                }
                self.offset = self.offset + remaining;
                remaining = 0;
            } else {
                proof {
                    assert(left.skip(available as int) =~= tail);
                    assert(left.skip(available as int) =~= all.skip(done + available));
                }
                remaining -= available;
                self.index = self.index + 1;
                self.offset = 0;
            }
        }
        proof {
            if self.index == buffers@.len() {
                assert(all.skip(written - remaining).len() == 0);
                if written <= all.len() {
                    assert(all.skip(written as int) =~= Seq::empty());
                }
            }
        }
        Ok(())
    }
}

/// The order of sending loses no frame, invents none and doubles none.
pub proof fn law_sorting_keeps_every_frame(frames: Seq<PrioritizedFrame>)
    ensures
        sending_order(frames).to_multiset() == frames.to_multiset(),
    decreases frames.len(),
{
    reveal(Seq::filter);
    broadcast use vstd::seq_lib::group_to_multiset_ensures;

    if frames.len() == 0 {
        assert(sending_order(frames) =~= frames);
    } else {
        let init = frames.drop_last();
        let last = frames.last();
        law_sorting_keeps_every_frame(init);
        assert(frames =~= init.push(last));
        let (a, b, c, d) = (
            at_order(init, 0),
            at_order(init, 1),
            at_order(init, 2),
            at_order(init, 3),
        );
        let before = sending_order(init);
        let k = if last.0.order() == 0 {
            a.len()
        } else if last.0.order() == 1 {
            a.len() + b.len()
        } else if last.0.order() == 2 {
            a.len() + b.len() + c.len()
        } else {
            before.len()
        };
        assert(sending_order(frames) =~= before.insert(k as int, last));
        before.insert_ensures(k as int, last);
        vstd::seq_lib::to_multiset_insert(before, k as int, last);
    }
}

/// Frames are sent in the order of their priorities.
pub proof fn law_sorting_orders_by_priority(frames: Seq<PrioritizedFrame>, i: int, j: int)
    requires
        0 <= i < j < sending_order(frames).len(),
    ensures
        sending_order(frames)[i].0.order() <= sending_order(frames)[j].0.order(),
{
    broadcast use vstd::seq_lib::group_filter_ensures;

    let (a, b, c, d) = (
        at_order(frames, 0),
        at_order(frames, 1),
        at_order(frames, 2),
        at_order(frames, 3),
    );
    assert forall|k: int| 0 <= k < a.len() implies (#[trigger] a[k]).0.order() == 0 by {}
    assert forall|k: int| 0 <= k < b.len() implies (#[trigger] b[k]).0.order() == 1 by {}
    assert forall|k: int| 0 <= k < c.len() implies (#[trigger] c[k]).0.order() == 2 by {}
    assert forall|k: int| 0 <= k < d.len() implies (#[trigger] d[k]).0.order() == 3 by {}
    let s = sending_order(frames);
    assert forall|k: int| 0 <= k < s.len() implies (#[trigger] s[k]).0.order() == (if k < a.len() {
        0u8
    } else if k < a.len() + b.len() {
        1u8
    } else if k < a.len() + b.len() + c.len() {
        2u8
    } else {
        3u8
    }) by {
        if k < a.len() {
            assert(s[k] == a[k]);
        } else if k < a.len() + b.len() {
            assert(s[k] == b[k - a.len()]);
        } else if k < a.len() + b.len() + c.len() {
            assert(s[k] == c[k - a.len() - b.len()]);
        } else {
            assert(s[k] == d[k - a.len() - b.len() - c.len()]);
        }
    }
}

/// Among frames of one priority, those that came first are sent first.
pub proof fn law_sorting_is_stable(frames: Seq<PrioritizedFrame>, order: u8)
    requires
        order <= 3,
    ensures
        at_order(sending_order(frames), order) == at_order(frames, order),
{
    let p = |f: PrioritizedFrame| f.0.order() == order;
    let (a, b, c, d) = (
        at_order(frames, 0),
        at_order(frames, 1),
        at_order(frames, 2),
        at_order(frames, 3),
    );
    Seq::filter_distributes_over_add(a + b + c, d, p);
    Seq::filter_distributes_over_add(a + b, c, p);
    Seq::filter_distributes_over_add(a, b, p);
    lemma_refilter(frames, 0, order);
    lemma_refilter(frames, 1, order);
    lemma_refilter(frames, 2, order);
    lemma_refilter(frames, 3, order);
    assert(at_order(sending_order(frames), order) =~= at_order(frames, order));
}

proof fn lemma_refilter(frames: Seq<PrioritizedFrame>, inner: u8, outer: u8)
    ensures
        at_order(at_order(frames, inner), outer) == if inner == outer {
            at_order(frames, inner)
        } else {
            Seq::empty()
        },
    decreases frames.len(),
{
    reveal(Seq::filter);
    if frames.len() > 0 {
        let init = frames.drop_last();
        lemma_refilter(init, inner, outer);
        let f = at_order(init, inner);
        if frames.last().0.order() == inner {
            assert(at_order(frames, inner) =~= f.push(frames.last()));
            assert(f.push(frames.last()).drop_last() =~= f);
        } else {
            assert(at_order(frames, inner) =~= f);
        }
    }
}

/// What a batch writes, the peer's codec reads as the frames of the batch that were small
/// enough, in sending order, wherever it accepts each of them on its own.
pub proof fn law_peer_reads_the_batch(
    frames: Seq<PrioritizedFrame>,
    max: nat,
    limits: ValidationLimits,
)
    requires
        max <= u32::MAX,
        forall|i: int|
            0 <= i < frames.len() ==> parse(
                frame_kind((#[trigger] frames[i]).1),
                frame_payload(frames[i].1),
                limits,
            ) == Some(frames[i].1@),
    ensures
        batch_frames(stream_bytes(sendable(frames, max)), max, limits) == frame_views(
            sendable(frames, max),
        ),
        batch_rest(stream_bytes(sendable(frames, max)), max, limits) == Seq::<u8>::empty(),
        !batch_refused(stream_bytes(sendable(frames, max)), max, limits),
{
    let sent = sendable(frames, max);
    lemma_sendable(frames, max, limits);
    assert(framing(Seq::<u8>::empty(), max) is Incomplete);
    law_batch_reads_written_frames(sent, Seq::empty(), max, limits);
    assert(stream_bytes(sent) + Seq::<u8>::empty() =~= stream_bytes(sent));
}

proof fn lemma_sendable(frames: Seq<PrioritizedFrame>, max: nat, limits: ValidationLimits)
    requires
        forall|i: int|
            0 <= i < frames.len() ==> parse(
                frame_kind((#[trigger] frames[i]).1),
                frame_payload(frames[i].1),
                limits,
            ) == Some(frames[i].1@),
    ensures
        forall|i: int|
            0 <= i < sendable(frames, max).len() ==> wire_len(#[trigger] sendable(frames, max)[i])
                <= max && parse(
                frame_kind(sendable(frames, max)[i]),
                frame_payload(sendable(frames, max)[i]),
                limits,
            ) == Some(sendable(frames, max)[i]@),
    decreases frames.len(),
{
    if frames.len() > 0 {
        let rest = frames.skip(1);
        assert forall|i: int| 0 <= i < rest.len() implies parse(
            frame_kind((#[trigger] rest[i]).1),
            frame_payload(rest[i].1),
            limits,
        ) == Some(rest[i].1@) by {
            assert(rest[i] == frames[i + 1]);
        }
        lemma_sendable(rest, max, limits);
        let tail = sendable(rest, max);
        let whole = sendable(frames, max);
        assert forall|i: int| 0 <= i < whole.len() implies wire_len(#[trigger] whole[i]) <= max
            && parse(frame_kind(whole[i]), frame_payload(whole[i]), limits) == Some(
            whole[i]@,
        ) by {
            if wire_len(frames[0].1) <= max {
                if i == 0 {
                    assert(whole[0] == frames[0].1);
                } else {
                    assert(whole[i] == tail[i - 1]);
                }
            } else {
                assert(whole[i] == tail[i]);
            }
        }
    }
}

/// The frames that are small enough to be sent, with their priorities.
pub open spec fn small_enough(frames: Seq<PrioritizedFrame>, max: nat) -> Seq<PrioritizedFrame> {
    frames.filter(|f: PrioritizedFrame| wire_len(f.1) <= max)
}

/// Frames without their priorities.
pub open spec fn bare(frames: Seq<PrioritizedFrame>) -> Seq<Frame> {
    Seq::new(frames.len(), |i: int| frames[i].1)
}

/// What was received in a run of the sender: its batches, one after the other.
pub open spec fn run_received(batches: Seq<Seq<PrioritizedFrame>>) -> Seq<PrioritizedFrame>
    decreases batches.len(),
{
    if batches.len() == 0 {
        Seq::empty()
    } else {
        run_received(batches.drop_last()) + batches.last()
    }
}

/// What is sent in a run of the sender, frame by frame.
pub open spec fn run_sent(batches: Seq<Seq<PrioritizedFrame>>, max: nat) -> Seq<PrioritizedFrame>
    decreases batches.len(),
{
    if batches.len() == 0 {
        Seq::empty()
    } else {
        run_sent(batches.drop_last(), max) + small_enough(sending_order(batches.last()), max)
    }
}

/// What is written in a run of the sender: the segments of each batch.
pub open spec fn run_bytes(batches: Seq<Seq<PrioritizedFrame>>, max: nat) -> Seq<u8>
    decreases batches.len(),
{
    if batches.len() == 0 {
        Seq::empty()
    } else {
        run_bytes(batches.drop_last(), max) + stream_bytes(
            sendable(sending_order(batches.last()), max),
        )
    }
}

proof fn lemma_sendable_is_small_enough(frames: Seq<PrioritizedFrame>, max: nat)
    ensures
        sendable(frames, max) == bare(small_enough(frames, max)),
    decreases frames.len(),
{
    reveal(Seq::filter);
    let p = |f: PrioritizedFrame| wire_len(f.1) <= max;
    if frames.len() == 0 {
        assert(bare(small_enough(frames, max)) =~= Seq::empty());
    } else {
        let rest = frames.skip(1);
        let one = seq![frames[0]];
        lemma_sendable_is_small_enough(rest, max);
        assert(frames =~= one + rest);
        Seq::filter_distributes_over_add(one, rest, p);
        assert(one.drop_last() =~= Seq::empty());
        assert(one.drop_last().filter(p) =~= Seq::empty());
        if p(frames[0]) {
            assert(one.filter(p) =~= one);
            assert(bare(one + rest.filter(p)) =~= seq![frames[0].1] + bare(rest.filter(p)));
        } else {
            assert(one.filter(p) =~= Seq::empty());
            assert(one.filter(p) + rest.filter(p) =~= rest.filter(p));
        }
    }
}

proof fn lemma_stream_bytes_join(a: Seq<Frame>, b: Seq<Frame>)
    ensures
        stream_bytes(a + b) == stream_bytes(a) + stream_bytes(b),
    decreases a.len(),
{
    if a.len() == 0 {
        assert(a + b =~= b);
        assert(stream_bytes(a) + stream_bytes(b) =~= stream_bytes(b));
    } else {
        lemma_stream_bytes_join(a.skip(1), b);
        assert((a + b).skip(1) =~= a.skip(1) + b);
        assert(stream_bytes(a + b) =~= stream_bytes(a) + stream_bytes(b));
    }
}

proof fn lemma_filters_commute(frames: Seq<PrioritizedFrame>, order: u8, max: nat)
    ensures
        at_order(small_enough(frames, max), order) == small_enough(at_order(frames, order), max),
    decreases frames.len(),
{
    reveal(Seq::filter);
    if frames.len() > 0 {
        let init = frames.drop_last();
        let last = frames.last();
        lemma_filters_commute(init, order, max);
        let a = small_enough(init, max);
        let b = at_order(init, order);
        assert(a.push(last).drop_last() =~= a);
        assert(b.push(last).drop_last() =~= b);
    }
}

proof fn lemma_sorting_commutes(frames: Seq<PrioritizedFrame>, max: nat)
    ensures
        small_enough(sending_order(frames), max) == sending_order(small_enough(frames, max)),
{
    let p = |f: PrioritizedFrame| wire_len(f.1) <= max;
    let (a, b, c, d) = (
        at_order(frames, 0),
        at_order(frames, 1),
        at_order(frames, 2),
        at_order(frames, 3),
    );
    Seq::filter_distributes_over_add(a + b + c, d, p);
    Seq::filter_distributes_over_add(a + b, c, p);
    Seq::filter_distributes_over_add(a, b, p);
    lemma_filters_commute(frames, 0, max);
    lemma_filters_commute(frames, 1, max);
    lemma_filters_commute(frames, 2, max);
    lemma_filters_commute(frames, 3, max);
}

/// Of one batch, what is sent goes by priority.
pub proof fn law_batch_is_sent_by_priority(
    frames: Seq<PrioritizedFrame>,
    max: nat,
    i: int,
    j: int,
)
    requires
        0 <= i < j < small_enough(sending_order(frames), max).len(),
    ensures
        small_enough(sending_order(frames), max)[i].0.order() <= small_enough(
            sending_order(frames),
            max,
        )[j].0.order(),
{
    lemma_sorting_commutes(frames, max);
    law_sorting_orders_by_priority(small_enough(frames, max), i, j);
}

/// Over a whole run of the sender, however what it receives falls into batches: what is written
/// are the frames that are small enough, each exactly once; and frames of one priority are
/// written in the order in which they were received, across batches too.
pub proof fn law_run_sends_every_frame_once(
    batches: Seq<Seq<PrioritizedFrame>>,
    max: nat,
    order: u8,
)
    requires
        order <= 3,
    ensures
        run_bytes(batches, max) == stream_bytes(bare(run_sent(batches, max))),
        run_sent(batches, max).to_multiset() == small_enough(
            run_received(batches),
            max,
        ).to_multiset(),
        at_order(run_sent(batches, max), order) == at_order(
            small_enough(run_received(batches), max),
            order,
        ),
    decreases batches.len(),
{
    let p = |f: PrioritizedFrame| wire_len(f.1) <= max;
    let q = |f: PrioritizedFrame| f.0.order() == order;
    if batches.len() == 0 {
        reveal(Seq::filter);
        assert(bare(run_sent(batches, max)) =~= Seq::empty());
        assert(run_sent(batches, max) =~= small_enough(run_received(batches), max));
    } else {
        let front = batches.drop_last();
        let last = batches.last();
        law_run_sends_every_frame_once(front, max, order);
        let sent = run_sent(front, max);
        let here = small_enough(sending_order(last), max);
        let small = small_enough(last, max);
        lemma_sendable_is_small_enough(sending_order(last), max);
        lemma_stream_bytes_join(bare(sent), bare(here));
        assert(bare(sent + here) =~= bare(sent) + bare(here));
        Seq::filter_distributes_over_add(run_received(front), last, p);
        lemma_sorting_commutes(last, max);
        law_sorting_keeps_every_frame(small);
        vstd::seq_lib::lemma_multiset_commutative(sent, here);
        vstd::seq_lib::lemma_multiset_commutative(small_enough(run_received(front), max), small);
        law_sorting_is_stable(small, order);
        Seq::filter_distributes_over_add(sent, here, q);
        Seq::filter_distributes_over_add(small_enough(run_received(front), max), small, q);
    }
}

/// Segments that are written one after the other are their bytes one after the other.
pub proof fn law_segments_are_written_in_order(segments: Seq<Vec<u8>>, last: Vec<u8>)
    ensures
        segment_bytes(Seq::<Vec<u8>>::empty()) == Seq::<u8>::empty(),
        segment_bytes(segments.push(last)) == segment_bytes(segments) + last@,
{
    lemma_segment_push(segments, last);
}

/// A sorted batch holds the same frames as before. A critical frame comes before all others, a high
/// one before normal and low ones, a normal one before low ones; and of one priority, what came
/// first comes first.
pub proof fn law_batch_is_sorted_by_priority(
    frames: Vec<PrioritizedFrame>,
    r: Vec<PrioritizedFrame>,
    i: int,
    j: int,
    order: u8,
)
    requires
        call_ensures(sort_by_priority, (frames,), r),
        0 <= i < j < r@.len(),
        order <= 3,
    ensures
        r@.to_multiset() == frames@.to_multiset(),
        r@[j].0 == StreamPriority::Critical ==> r@[i].0 == StreamPriority::Critical,
        r@[j].0 == StreamPriority::High ==> r@[i].0 == StreamPriority::Critical || r@[i].0
            == StreamPriority::High,
        r@[j].0 == StreamPriority::Normal ==> r@[i].0 != StreamPriority::Low,
        at_order(r@, order) == at_order(frames@, order),
{
    law_sorting_keeps_every_frame(frames@);
    law_sorting_orders_by_priority(frames@, i, j);
    law_sorting_is_stable(frames@, order);
}

/// A batch of one frame is what the codec writes for it, or nothing where that is too large; it is
/// written in segments that together are the same bytes.
pub proof fn law_batch_of_one_is_that_frame(
    codec: &TunnelCodec,
    priority: StreamPriority,
    frame: Frame,
    frames: Vec<PrioritizedFrame>,
    segments: Vec<Vec<u8>>,
    borrowed: &Frame,
    wire: &mut Vec<u8>,
    encoded: Result<(), CodecError>,
    out: &mut Vec<Vec<u8>>,
    cut: Result<(), CodecError>,
)
    requires
        frames@ == seq![(priority, frame)],
        call_ensures(assemble_batch, (codec, frames), segments),
        *borrowed == frame,
        old(wire)@.len() == 0,
        call_ensures(TunnelCodec::encode, (codec, borrowed, wire), encoded),
        call_ensures(encode_frame_segments, (codec, frame, out), cut),
    ensures
        encoded is Ok ==> segment_bytes(segments@) == final(wire)@,
        encoded is Err ==> segment_bytes(segments@).len() == 0,
        cut is Ok <==> encoded is Ok,
        cut is Ok ==> segment_bytes(final(out)@) == segment_bytes(old(out)@) + final(wire)@,
        cut is Err ==> final(out)@ == old(out)@,
{
    lemma_one_sent(priority, frame, codec.max_size() as nat);
    if encoded is Ok {
        assert(final(wire)@ =~= frame_bytes(frame));
    }
}

proof fn lemma_one_sent(priority: StreamPriority, frame: Frame, max: nat)
    ensures
        stream_bytes(sendable(sending_order(seq![(priority, frame)]), max)) == (if wire_len(frame)
            <= max {
            frame_bytes(frame)
        } else {
            Seq::empty()
        }),
{
    lemma_one_in_order(priority, frame);
    lemma_one_sendable(priority, frame, max);
    if wire_len(frame) <= max {
        lemma_one_streamed(frame);
    }
}

proof fn lemma_one_sendable(priority: StreamPriority, frame: Frame, max: nat)
    ensures
        sendable(seq![(priority, frame)], max) == (if wire_len(frame) <= max {
            seq![frame]
        } else {
            Seq::empty()
        }),
{
    let one = seq![(priority, frame)];
    let rest = one.skip(1);
    assert(rest =~= Seq::empty());
    assert(sendable(rest, max) == Seq::<Frame>::empty());
    assert(seq![frame] + Seq::<Frame>::empty() =~= seq![frame]);
}

proof fn lemma_one_streamed(frame: Frame)
    ensures
        stream_bytes(seq![frame]) == frame_bytes(frame),
{
    let rest = seq![frame].skip(1);
    assert(rest =~= Seq::empty());
    assert(stream_bytes(rest) == Seq::<u8>::empty());
    let bytes = frame_bytes(frame);
    assert(stream_bytes(seq![frame]) == bytes + Seq::<u8>::empty());
    lemma_nothing_behind(bytes);
}

proof fn lemma_nothing_behind(bytes: Seq<u8>)
    ensures
        bytes + Seq::<u8>::empty() == bytes,
{
    assert(bytes + Seq::<u8>::empty() =~= bytes);
}

proof fn lemma_one_in_order(priority: StreamPriority, frame: Frame)
    ensures
        sending_order(seq![(priority, frame)]) == seq![(priority, frame)],
{
    let first = (priority, frame);
    let none = Seq::<PrioritizedFrame>::empty();
    reveal(Seq::filter);
    assert(seq![first] =~= seq![first] + none);
    assert(at_order(none, 0) =~= none);
    assert(at_order(none, 1) =~= none);
    assert(at_order(none, 2) =~= none);
    assert(at_order(none, 3) =~= none);
    lemma_at_order_front(first, none, 0);
    lemma_at_order_front(first, none, 1);
    lemma_at_order_front(first, none, 2);
    lemma_at_order_front(first, none, 3);
    assert(sending_order(seq![first]) =~= seq![first]);
}

/// What is assembled of a batch is what one codec after the other reads back: the frames in the order
/// in which they are sorted, as long as each can be written and is accepted on its own.
pub proof fn law_assembled_batch_is_read_in_order(
    codec: &TunnelCodec,
    frames: Vec<PrioritizedFrame>,
    segments: Vec<Vec<u8>>,
    sorted: Vec<PrioritizedFrame>,
    src: &mut Vec<u8>,
    out: &mut Vec<Frame>,
    r: Result<usize, CodecError>,
)
    requires
        call_ensures(assemble_batch, (codec, frames), segments),
        call_ensures(sort_by_priority, (frames,), sorted),
        old(src)@ == segment_bytes(segments@),
        old(out)@.len() == 0,
        call_ensures(TunnelCodec::decode_batch, (codec, src, out), r),
        codec.max_size() <= u32::MAX,
        forall|i: int|
            0 <= i < sorted@.len() ==> (#[trigger] sorted@[i]).1 is Data && wire_len(sorted@[i].1)
                <= codec.max_size(),
    ensures
        r is Ok,
        final(src)@.len() == 0,
        final(out)@.len() == sorted@.len(),
        forall|i: int|
            0 <= i < sorted@.len() ==> (#[trigger] final(out)@[i])@ == sorted@[i].1@,
{
    let max = codec.max_size() as nat;
    let limits = codec.bounds();
    assert forall|i: int| 0 <= i < sorted@.len() implies parse(
        frame_kind((#[trigger] sorted@[i]).1),
        frame_payload(sorted@[i].1),
        limits,
    ) == Some(sorted@[i].1@) by {
        crate::codec::law_data_frames_are_accepted(sorted@[i].1, limits);
    }
    law_peer_reads_the_batch(sorted@, max, limits);
    lemma_all_sendable(sorted@, max);
    let sent = sendable(sorted@, max);
    assert(frame_views(old(out)@) =~= Seq::empty());
    let views = frame_views(final(out)@);
    assert(views =~= frame_views(sent));
    assert(views.len() == final(out)@.len());
    assert forall|i: int| 0 <= i < sorted@.len() implies (#[trigger] final(out)@[i])@
        == sorted@[i].1@ by {
        assert(views[i] == sent[i]@);
    }
}

proof fn lemma_all_sendable(frames: Seq<PrioritizedFrame>, max: nat)
    requires
        forall|i: int| 0 <= i < frames.len() ==> wire_len((#[trigger] frames[i]).1) <= max,
    ensures
        sendable(frames, max).len() == frames.len(),
        forall|i: int| 0 <= i < frames.len() ==> #[trigger] sendable(frames, max)[i] == frames[i].1,
    decreases frames.len(),
{
    if frames.len() > 0 {
        let rest = frames.skip(1);
        assert forall|i: int| 0 <= i < rest.len() implies wire_len((#[trigger] rest[i]).1)
            <= max by {
            assert(rest[i] == frames[i + 1]);
        }
        lemma_all_sendable(rest, max);
        assert forall|i: int| 0 <= i < frames.len() implies #[trigger] sendable(frames, max)[i]
            == frames[i].1 by {
            if i > 0 {
                assert(sendable(frames, max)[i] == sendable(rest, max)[i - 1]);
            }
        }
    }
}

/// A batch takes up to 256 frames; one frame is sent at once, and so is a full batch, while a batch
/// in between lets producers run first.
pub proof fn law_batches_wait_for_company(collected: usize, room: bool, yields: bool)
    requires
        call_ensures(batch_has_room, (collected,), room),
        call_ensures(batch_should_yield, (collected,), yields),
    ensures
        room <==> collected < 256,
        yields <==> room && collected >= 2,
{
}

/// Writing starts with all bytes to be written; what the writer takes is written, no more and no
/// less; what is offered next is what is left; and it is done exactly where nothing is.
pub proof fn law_writing_loses_no_byte(
    buffers: &Vec<Vec<u8>>,
    fresh: WriteProgress,
    progress: &mut WriteProgress,
    written: usize,
    r: Result<(), TunnelError>,
    settling: &mut WriteProgress,
    done: bool,
    parts: Vec<(usize, usize)>,
)
    requires
        call_ensures(WriteProgress::new, (), fresh),
        old(progress).within(buffers@),
        call_ensures(WriteProgress::advance, (progress, buffers, written), r),
        old(settling).within(buffers@),
        call_ensures(WriteProgress::settle, (settling, buffers), done),
        call_ensures(WriteProgress::parts, (&*old(progress), buffers), parts),
    ensures
        fresh.left(buffers@) == segment_bytes(buffers@),
        r is Ok <==> written > 0,
        0 < written <= old(progress).left(buffers@).len() ==> old(progress).left(buffers@).skip(
            written as int,
        ) == final(progress).left(buffers@),
        r is Err ==> *final(progress) == *old(progress),
        done <==> old(settling).left(buffers@).len() == 0,
        final(settling).left(buffers@) == old(settling).left(buffers@),
        parts_bytes(buffers@, parts@) == old(progress).left(buffers@),
{
    lemma_unwritten_from_start(buffers@, 0);
    assert(buffers@.skip(0) =~= buffers@);
    if buffers@.len() > 0 {
        assert(buffers@[0]@.skip(0) =~= buffers@[0]@);
    }
}

proof fn lemma_unwritten_from_start(buffers: Seq<Vec<u8>>, index: int)
    requires
        0 <= index <= buffers.len(),
    ensures
        unwritten(buffers, index, 0) == segment_bytes(buffers.skip(index)),
    decreases buffers.len() - index,
{
    if index < buffers.len() {
        lemma_unwritten_from_start(buffers, index + 1);
        let rest = buffers.skip(index + 1);
        assert(buffers.skip(index) =~= seq![buffers[index]] + rest);
        assert(buffers[index]@.skip(0) =~= buffers[index]@);
        lemma_segment_front(buffers[index], rest);
    }
}

proof fn lemma_segment_front(first: Vec<u8>, rest: Seq<Vec<u8>>)
    ensures
        segment_bytes(seq![first] + rest) == first@ + segment_bytes(rest),
    decreases rest.len(),
{
    let whole = seq![first] + rest;
    if rest.len() == 0 {
        assert(whole.drop_last() =~= Seq::empty());
        assert(segment_bytes(whole.drop_last()) =~= Seq::<u8>::empty());
        assert(segment_bytes(whole) =~= first@ + segment_bytes(rest));
    } else {
        lemma_segment_front(first, rest.drop_last());
        assert(whole.drop_last() =~= seq![first] + rest.drop_last());
        assert(segment_bytes(whole) =~= first@ + segment_bytes(rest));
    }
}

/// Of a sorted batch the first frame is written first, as the codec writes it, and left out where
/// that is too large; what follows is what a batch of the others writes.
pub proof fn law_batch_is_written_frame_by_frame(
    codec: &TunnelCodec,
    frames: Vec<PrioritizedFrame>,
    sorted: Vec<PrioritizedFrame>,
    segments: Vec<Vec<u8>>,
    others: Vec<PrioritizedFrame>,
    others_sorted: Vec<PrioritizedFrame>,
    others_segments: Vec<Vec<u8>>,
    first: &Frame,
    wire: &mut Vec<u8>,
    encoded: Result<(), CodecError>,
)
    requires
        call_ensures(sort_by_priority, (frames,), sorted),
        call_ensures(assemble_batch, (codec, frames), segments),
        call_ensures(sort_by_priority, (others,), others_sorted),
        call_ensures(assemble_batch, (codec, others), others_segments),
        sorted@.len() > 0,
        others_sorted@ == sorted@.skip(1),
        *first == sorted@[0].1,
        old(wire)@.len() == 0,
        call_ensures(TunnelCodec::encode, (codec, first, wire), encoded),
    ensures
        segment_bytes(segments@) == final(wire)@ + segment_bytes(others_segments@),
{
    let max = codec.max_size() as nat;
    let rest = sendable(others_sorted@, max);
    if encoded is Ok {
        lemma_nothing_before(frame_bytes(*first));
        assert(old(wire)@ =~= Seq::empty());
        assert(final(wire)@ == frame_bytes(*first));
        lemma_one_more_streamed(*first, rest);
    } else {
        assert(final(wire)@ =~= Seq::empty());
        assert(Seq::<u8>::empty() + stream_bytes(rest) =~= stream_bytes(rest));
    }
}

proof fn lemma_nothing_before(bytes: Seq<u8>)
    ensures
        Seq::<u8>::empty() + bytes == bytes,
{
    assert(Seq::<u8>::empty() + bytes =~= bytes);
}

proof fn lemma_one_more_streamed(first: Frame, rest: Seq<Frame>)
    ensures
        stream_bytes(seq![first] + rest) == frame_bytes(first) + stream_bytes(rest),
{
    assert((seq![first] + rest).skip(1) =~= rest);
}

/// Every batch can be sorted and assembled.
pub proof fn law_any_batch_can_be_sent(codec: &TunnelCodec, frames: Vec<PrioritizedFrame>)
    ensures
        call_requires(sort_by_priority, (frames,)),
        call_requires(assemble_batch, (codec, frames)),
{
}

} // verus!
