//! Byte-rate enforcement on the inbound half of a stream.
//!
//! Data over budget is delayed, not dropped: bytes that were read are withheld until the
//! session has paid for them. Only reads are metered. Whoever runs the stream reads from it,
//! and waits for the budget where it is told to.

use vstd::prelude::*;

use crate::rate_limit::SessionRateLimiter;
use crate::virtual_stream::lesser;

verus! {

/// What a read asks for next.
#[derive(Debug, PartialEq)]
pub enum MeteredRead {
    /// Hand these bytes to the caller; none of them at the end of the stream.
    Ready(Vec<u8>),
    /// Wait until the outstanding debt is paid.
    Wait,
    /// Read at most this many bytes from the stream, and report what came.
    ReadInner(usize),
    /// Wait for budget for this many bytes, which are withheld until then.
    Throttle(usize),
}

/// What a read asks for next, with its bytes as a sequence.
pub enum MeteredStep {
    Ready(Seq<u8>),
    Wait,
    ReadInner(nat),
    Throttle(nat),
}

impl View for MeteredRead {
    type V = MeteredStep;

    open spec fn view(&self) -> MeteredStep {
        match self {
            MeteredRead::Ready(chunk) => MeteredStep::Ready(chunk@),
            MeteredRead::Wait => MeteredStep::Wait,
            MeteredRead::ReadInner(room) => MeteredStep::ReadInner(*room as nat),
            MeteredRead::Throttle(n) => MeteredStep::Throttle(*n as nat),
        }
    }
}

/// What a metered stream holds.
pub struct Meter {
    /// The bytes that were read and not yet handed out.
    pub withheld: Seq<u8>,
    /// Whether a debt is outstanding.
    pub indebted: bool,
}

/// A meter that hands out what it withholds, at most `room` bytes: what it holds then, and what
/// it handed out.
pub open spec fn drained(meter: Meter, room: nat) -> (Meter, Seq<u8>) {
    let n = lesser(room, meter.withheld.len()) as int;
    (Meter { withheld: meter.withheld.skip(n), ..meter }, meter.withheld.take(n))
}

/// A read with room for `room` bytes starts; `paid` says whether an outstanding debt has been
/// paid. A debt comes first; then bytes that were paid for; only then is the stream read.
pub open spec fn begun(meter: Meter, room: nat, paid: bool) -> (Meter, MeteredStep) {
    if room == 0 {
        (meter, MeteredStep::Ready(Seq::empty()))
    } else if meter.indebted && !paid {
        (meter, MeteredStep::Wait)
    } else {
        let free = Meter { indebted: false, ..meter };
        if meter.withheld.len() > 0 {
            (drained(free, room).0, MeteredStep::Ready(drained(free, room).1))
        } else {
            (free, MeteredStep::ReadInner(room))
        }
    }
}

/// Bytes were read, and the budget admits them or does not: they are handed out as far as there
/// is room, or withheld.
pub open spec fn budgeted(meter: Meter, bytes: Seq<u8>, room: nat, admitted: bool) -> (
    Meter,
    MeteredStep,
) {
    let held = Meter { withheld: bytes, ..meter };
    if admitted {
        (drained(held, room).0, MeteredStep::Ready(drained(held, room).1))
    } else {
        (Meter { indebted: true, ..held }, MeteredStep::Throttle(bytes.len()))
    }
}

/// The debt was paid: withheld bytes are handed out as far as there is room.
pub open spec fn settled(meter: Meter, room: nat) -> (Meter, Seq<u8>) {
    drained(Meter { indebted: false, ..meter }, room)
}

/// A stream whose reads are metered against a session's budget.
pub struct RateLimitedStream {
    limiter: SessionRateLimiter,
    throttled: bool,
    pending: Vec<u8>,
    released: usize,
}

impl RateLimitedStream {
    #[verifier::type_invariant]
    closed spec fn inv(&self) -> bool {
        self.released <= self.pending@.len()
    }

    /// What the stream holds.
    pub closed spec fn meter(&self) -> Meter {
        Meter { withheld: self.pending@.skip(self.released as int), indebted: self.throttled }
    }

    /// The limiter whose budget of bytes the stream is held to.
    pub closed spec fn budget(&self) -> SessionRateLimiter {
        self.limiter
    }

    /// Meters a stream against `limiter`.
    pub fn new(limiter: SessionRateLimiter) -> (r: RateLimitedStream)
        ensures
            r.meter() == (Meter { withheld: Seq::empty(), indebted: false }),
            r.budget() == limiter,
    {
        let r = RateLimitedStream { limiter, throttled: false, pending: Vec::new(), released: 0 };
        proof {
            assert(r.meter().withheld =~= Seq::empty());
        }
        r
    }

    /// Hands out withheld bytes, at most `room`.
    fn drain_pending(&mut self, room: usize) -> (r: Vec<u8>)
        ensures
            (final(self).meter(), r@) == drained(old(self).meter(), room as nat),
            final(self).budget() == old(self).budget(),
    {
        proof {
            use_type_invariant(&*self);
        }
        let ghost before = self.meter();
        let available: usize = self.pending.len() - self.released;
        let take: usize = if available <= room {
            available
        } else {
            room
        };
        let start: usize = self.released;
        let chunk = vstd::slice::slice_to_vec(
            vstd::slice::slice_subrange(self.pending.as_slice(), start, start + take),
        );
        if start + take == self.pending.len() {
            let mut empty: Vec<u8> = Vec::new();
            self.released = 0;
            core::mem::swap(&mut self.pending, &mut empty);
        } else {
            self.released = start + take;
        }
        proof {
            assert(chunk@ =~= before.withheld.take(take as int));
            assert(self.meter().withheld =~= before.withheld.skip(take as int));
        }
        chunk
    }

    /// Starts a read with room for `room` bytes. `paid` says whether an outstanding debt has
    /// been paid by now.
    ///
    /// A debt comes first; then bytes that were paid for; only then is the stream read.
    pub fn begin_read(&mut self, room: usize, paid: bool) -> (r: MeteredRead)
        ensures
            (final(self).meter(), r@) == begun(old(self).meter(), room as nat, paid),
            final(self).budget() == old(self).budget(),
    {
        proof {
            use_type_invariant(&*self);
        }
        if room == 0 {
            let none: Vec<u8> = Vec::new();
            proof {
                assert(none@ =~= Seq::empty());
            }
            return MeteredRead::Ready(none);
        }
        if self.throttled {
            if !paid {
                return MeteredRead::Wait;
            }
            self.throttled = false;
        }
        let ghost before = self.meter();
        let chunk = self.drain_pending(room);
        if chunk.len() > 0 {
            return MeteredRead::Ready(chunk);
        }
        proof {
            assert(before.withheld.len() == 0);
            assert(self.meter().withheld =~= before.withheld);
        }
        MeteredRead::ReadInner(room)
    }

    /// Records what was read from the stream, and asks the budget.
    ///
    /// Where nothing was read the stream has ended. Data beyond the burst capacity is never
    /// admitted at once.
    pub fn on_read(&mut self, bytes: Vec<u8>, room: usize) -> (r: MeteredRead)
        requires
            old(self).meter().withheld.len() == 0,
            room > 0,
        ensures
            final(self).budget() == old(self).budget(),
            bytes@.len() == 0 ==> r@ == MeteredStep::Ready(Seq::empty()) && final(self).meter() == old(self).meter(),
            bytes@.len() > 0 ==> exists|admitted: bool|
                (final(self).meter(), r@) == #[trigger] budgeted(
                    old(self).meter(),
                    bytes@,
                    room as nat,
                    admitted,
                ) && old(self).budget().may_send(bytes@.len(), admitted),
    {
        proof {
            use_type_invariant(&*self);
        }
        if bytes.len() == 0 {
            proof {
                assert(bytes@ =~= Seq::empty());
            }
            return MeteredRead::Ready(bytes);
        }
        let admitted: bool = self.limiter.check_data(bytes.len()).is_ok();
        self.on_budget(bytes, room, admitted)
    }

    /// Releases what was read where the budget admits it, and withholds it where not.
    pub fn on_budget(&mut self, bytes: Vec<u8>, room: usize, admitted: bool) -> (r: MeteredRead)
        requires
            old(self).meter().withheld.len() == 0,
            room > 0,
            bytes@.len() > 0,
        ensures
            (final(self).meter(), r@) == budgeted(
                old(self).meter(),
                bytes@,
                room as nat,
                admitted,
            ),
            final(self).budget() == old(self).budget(),
    {
        let n: usize = bytes.len();
        let ghost all = bytes@;
        let mut held = bytes;
        self.released = 0;
        core::mem::swap(&mut self.pending, &mut held);
        proof {
            assert(self.meter().withheld =~= all);
        }
        if admitted {
            return MeteredRead::Ready(self.drain_pending(room));
        }
        self.throttled = true;
        MeteredRead::Throttle(n)
    }

    /// Records that the debt was paid before anything else happened: withheld bytes are
    /// released at once.
    pub fn on_paid(&mut self, room: usize) -> (r: Vec<u8>)
        ensures
            (final(self).meter(), r@) == settled(old(self).meter(), room as nat),
            final(self).budget() == old(self).budget(),
    {
        proof {
            use_type_invariant(&*self);
        }
        self.throttled = false;
        self.drain_pending(room)
    }
}

/// One read of the caller, and what happens meanwhile.
pub struct Poll {
    /// The room in the caller's buffer.
    pub room: nat,
    /// Whether an outstanding debt has been paid by then.
    pub paid: bool,
    /// What the stream gives where it is asked: nothing yet, or bytes, none at its end.
    pub arrived: Option<Seq<u8>>,
    /// Whether the budget admits those bytes.
    pub admitted: bool,
    /// Where it does not, whether they are paid for at once.
    pub paid_at_once: bool,
}

/// Reads so far.
pub struct MeteredRun {
    pub meter: Meter,
    /// All that was read from the stream.
    pub read: Seq<u8>,
    /// All that was handed to the caller.
    pub handed_out: Seq<u8>,
    /// The number of bytes that the budget granted.
    pub granted: nat,
    /// Whether the last read found the end of the stream.
    pub at_end: bool,
}

/// Before the first read.
pub open spec fn fresh_run() -> MeteredRun {
    MeteredRun {
        meter: Meter { withheld: Seq::empty(), indebted: false },
        read: Seq::empty(),
        handed_out: Seq::empty(),
        granted: 0,
        at_end: false,
    }
}

/// After one more read.
pub open spec fn polled(run: MeteredRun, poll: Poll) -> MeteredRun {
    let (meter, step) = begun(run.meter, poll.room, poll.paid);
    let granted = if run.meter.indebted && !meter.indebted {
        run.granted + run.meter.withheld.len()
    } else {
        run.granted
    };
    let begun_run = MeteredRun { meter, granted, at_end: false, ..run };
    match step {
        MeteredStep::Ready(chunk) => MeteredRun {
            handed_out: run.handed_out + chunk,
            ..begun_run
        },
        MeteredStep::ReadInner(_) => match poll.arrived {
            None => begun_run,
            Some(bytes) => if bytes.len() == 0 {
                MeteredRun { at_end: true, ..begun_run }
            } else {
                let (held, outcome) = budgeted(meter, bytes, poll.room, poll.admitted);
                match outcome {
                    MeteredStep::Ready(chunk) => MeteredRun {
                        meter: held,
                        read: run.read + bytes,
                        handed_out: run.handed_out + chunk,
                        granted: granted + bytes.len(),
                        at_end: false,
                    },
                    _ => if poll.paid_at_once {
                        let (free, chunk) = settled(held, poll.room);
                        MeteredRun {
                            meter: free,
                            read: run.read + bytes,
                            handed_out: run.handed_out + chunk,
                            granted: granted + bytes.len(),
                            at_end: false,
                        }
                    } else {
                        MeteredRun { meter: held, read: run.read + bytes, ..begun_run }
                    },
                }
            },
        },
        _ => begun_run,
    }
}

/// After a sequence of reads.
pub open spec fn polled_all(polls: Seq<Poll>) -> MeteredRun
    decreases polls.len(),
{
    if polls.len() == 0 {
        fresh_run()
    } else {
        polled(polled_all(polls.drop_last()), polls.last())
    }
}

/// Over any sequence of reads, with room of any size: what was handed out so far is a prefix of
/// what was read, with nothing lost, doubled or changed, and all of it where the end is
/// reported; and no byte is handed out before the budget has granted it.
pub proof fn law_metered_reads_delay_but_never_drop(polls: Seq<Poll>)
    ensures
        ({
            let run = polled_all(polls);
            &&& run.handed_out + run.meter.withheld == run.read
            &&& run.handed_out.is_prefix_of(run.read)
            &&& run.at_end ==> run.handed_out == run.read
            &&& run.handed_out.len() <= run.granted
            &&& run.granted == (if run.meter.indebted {
                run.handed_out.len()
            } else {
                run.read.len()
            })
        }),
    decreases polls.len(),
{
    let run = polled_all(polls);
    if polls.len() == 0 {
        assert(run.handed_out + run.meter.withheld =~= run.read);
    } else {
        law_metered_reads_delay_but_never_drop(polls.drop_last());
        let before = polled_all(polls.drop_last());
        let poll = polls.last();
        let (meter, step) = begun(before.meter, poll.room, poll.paid);
        if step is ReadInner && before.meter.withheld.len() == 0 {
            assert(before.handed_out =~= before.read);
        }
        assert(run.handed_out + run.meter.withheld =~= run.read);
        if run.at_end {
            assert(run.handed_out =~= run.read);
        }
    }
    assert(run.handed_out.is_prefix_of(run.read)) by {
        assert(run.handed_out =~= run.read.subrange(0, run.handed_out.len() as int));
    }
}

/// Of bytes that were read, those within the budget are handed out as far as there is room, and the
/// rest kept for the next read; bytes beyond the budget are all withheld, as a debt.
pub proof fn law_bytes_are_released_or_withheld(
    stream: &mut RateLimitedStream,
    bytes: Vec<u8>,
    room: usize,
    admitted: bool,
    r: MeteredRead,
)
    requires
        old(stream).meter().withheld.len() == 0,
        room > 0,
        bytes@.len() > 0,
        call_ensures(RateLimitedStream::on_budget, (stream, bytes, room, admitted), r),
    ensures
        admitted ==> {
            &&& r is Ready
            &&& r->Ready_0@ + final(stream).meter().withheld == bytes@
            &&& r->Ready_0@.len() == (if bytes@.len() <= room {
                bytes@.len() as int
            } else {
                room as int
            })
            &&& final(stream).meter().indebted == old(stream).meter().indebted
        },
        !admitted ==> {
            &&& r == MeteredRead::Throttle(bytes@.len() as usize)
            &&& final(stream).meter().withheld == bytes@
            &&& final(stream).meter().indebted
        },
        final(stream).budget() == old(stream).budget(),
{
    if admitted {
        let n = lesser(room as nat, bytes@.len()) as int;
        assert(bytes@.take(n) + bytes@.skip(n) =~= bytes@);
    }
}

/// While a debt is outstanding nothing is handed out and nothing read. Once it is paid, what was
/// withheld comes first, and only then is more read, as much as there is room for.
pub proof fn law_debt_comes_first(
    stream: &mut RateLimitedStream,
    room: usize,
    paid: bool,
    r: MeteredRead,
    payer: &mut RateLimitedStream,
    released: Vec<u8>,
)
    requires
        room > 0,
        call_ensures(RateLimitedStream::begin_read, (stream, room, paid), r),
        call_ensures(RateLimitedStream::on_paid, (payer, room), released),
    ensures
        old(stream).meter().indebted && !paid ==> r == MeteredRead::Wait && final(stream).meter()
            == old(stream).meter(),
        (!old(stream).meter().indebted || paid) && old(stream).meter().withheld.len() > 0 ==> {
            &&& r is Ready
            &&& 0 < r->Ready_0@.len() <= room
            &&& r->Ready_0@ + final(stream).meter().withheld == old(stream).meter().withheld
        },
        (!old(stream).meter().indebted || paid) && old(stream).meter().withheld.len() == 0 ==> r
            == MeteredRead::ReadInner(room),
        !old(stream).meter().indebted || paid ==> !final(stream).meter().indebted,
        !final(payer).meter().indebted,
        released@ + final(payer).meter().withheld == old(payer).meter().withheld,
        released@.len() <= room,
        old(payer).meter().withheld.len() > 0 ==> released@.len() > 0,
{
    let held = old(stream).meter().withheld;
    let n = lesser(room as nat, held.len()) as int;
    assert(held.take(n) + held.skip(n) =~= held);
    let owed = old(payer).meter().withheld;
    let k = lesser(room as nat, owed.len()) as int;
    assert(owed.take(k) + owed.skip(k) =~= owed);
}

/// A stream that ends is reported as ended; bytes that the budget can never admit at once are
/// withheld; and no byte that was read is ever missing from what is handed out and withheld.
pub proof fn law_reads_are_held_to_the_budget(
    limiter: SessionRateLimiter,
    fresh: RateLimitedStream,
    stream: &mut RateLimitedStream,
    bytes: Vec<u8>,
    room: usize,
    r: MeteredRead,
)
    requires
        call_ensures(RateLimitedStream::new, (limiter,), fresh),
        old(stream).meter().withheld.len() == 0,
        room > 0,
        call_ensures(RateLimitedStream::on_read, (stream, bytes, room), r),
    ensures
        fresh.meter().withheld.len() == 0 && !fresh.meter().indebted && fresh.budget() == limiter,
        bytes@.len() == 0 ==> r is Ready && r->Ready_0@.len() == 0,
        bytes@.len() > 0 ==> (r is Ready || r is Throttle),
        bytes@.len() > 0 && r is Ready ==> r->Ready_0@ + final(stream).meter().withheld == bytes@
            && r->Ready_0@.len() > 0,
        bytes@.len() > 0 && r is Throttle ==> final(stream).meter().withheld == bytes@
            && final(stream).meter().indebted,
        old(stream).budget().bytes_burst() < bytes@.len() <= u32::MAX ==> r is Throttle,
        0 < bytes@.len() <= u32::MAX ==> exists|answer: crate::rate_limit::Admission| #[trigger]
            old(stream).budget().answers_bytes(bytes@.len() as u32, answer) && (r is Ready
                <==> answer == crate::rate_limit::Admission::Admitted),
{
    if bytes@.len() > 0 {
        let admitted = choose|admitted: bool|
            (final(stream).meter(), r@) == #[trigger] budgeted(
                old(stream).meter(),
                bytes@,
                room as nat,
                admitted,
            ) && old(stream).budget().may_send(bytes@.len(), admitted);
        let n = lesser(room as nat, bytes@.len()) as int;
        assert(bytes@.take(n) + bytes@.skip(n) =~= bytes@);
    }
}

} // verus!
