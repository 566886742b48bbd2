//! The debug console port: one byte-wide sink behind a lock.
//!
//! The port is modelled by the stream of bytes that have reached it and by the
//! execution context that holds its lock. Every operation names the context
//! that performs it, so that the rules of the lock can be stated for any number
//! of contexts although a kernel of one context never sees the lock taken.

use vstd::prelude::*;

verus! {

/// What the host has observed of the port, and who may write to it.
pub struct PortModel {
    /// Every byte that reached the port, oldest first.
    pub transcript: Seq<u8>,
    /// The context that holds the lock, if any does.
    pub holder: Option<u64>,
    /// How many bytes of the transcript the caller has taken to put them on
    /// the wire.
    pub taken: nat,
}

/// One attempt of a context on the port.
pub enum PortEvent {
    /// Try to take the lock.
    Acquire,
    /// Try to send one byte.
    Write(u8),
    /// Give the lock back.
    Release,
}

impl PortModel {
    /// The port before anything was written to it.
    pub open spec fn fresh() -> PortModel {
        PortModel { transcript: Seq::empty(), holder: None, taken: 0 }
    }

    /// The bytes written since the output was last taken.
    pub open spec fn pending(self) -> Seq<u8> {
        self.transcript.skip(self.taken as int)
    }

    /// The port after the caller took all that was pending.
    pub open spec fn all_taken(self) -> PortModel {
        PortModel { taken: self.transcript.len(), ..self }
    }

    /// `ctx` tries the lock: it gets it only if nobody holds it.
    pub open spec fn acquire(self, ctx: u64) -> PortModel {
        if self.holder is None {
            PortModel { holder: Some(ctx), ..self }
        } else {
            self
        }
    }

    /// `ctx` sends `b`: the byte reaches the port only if `ctx` holds the lock.
    pub open spec fn write(self, ctx: u64, b: u8) -> PortModel {
        if self.holder == Some(ctx) {
            PortModel { transcript: self.transcript.push(b), ..self }
        } else {
            self
        }
    }

    /// `ctx` lets go of the lock; a context that does not hold it changes nothing.
    pub open spec fn release(self, ctx: u64) -> PortModel {
        if self.holder == Some(ctx) {
            PortModel { holder: None, ..self }
        } else {
            self
        }
    }

    /// The port after `ctx` made the attempt `event`.
    pub open spec fn step(self, ctx: u64, event: PortEvent) -> PortModel {
        match event {
            PortEvent::Acquire => self.acquire(ctx),
            PortEvent::Write(b) => self.write(ctx, b),
            PortEvent::Release => self.release(ctx),
        }
    }

    /// The port after a schedule of attempts, each with the context that made it.
    pub open spec fn run(self, schedule: Seq<(u64, PortEvent)>) -> PortModel
        decreases schedule.len(),
    {
        if schedule.len() == 0 {
            self
        } else {
            self.run(schedule.drop_last()).step(schedule.last().0, schedule.last().1)
        }
    }

    /// The port after `ctx`, holding the lock, sent `bytes` one after the other.
    pub open spec fn write_all(self, ctx: u64, bytes: Seq<u8>) -> PortModel
        decreases bytes.len(),
    {
        if bytes.len() == 0 {
            self
        } else {
            self.write_all(ctx, bytes.drop_last()).write(ctx, bytes.last())
        }
    }

    /// The port after a context made `bytes` one request: on a free port the
    /// bytes follow what was written before, whole and in order, and the port
    /// is free again. Where the lock is held, by whatever context, the attempt
    /// to take it fails and nothing is sent.
    pub open spec fn deliver(self, bytes: Seq<u8>) -> PortModel {
        if self.holder is None {
            PortModel { transcript: self.transcript + bytes, ..self }
        } else {
            self
        }
    }

    /// The port after a context sent `bytes` one by one, each as a request
    /// of its own.
    pub open spec fn write_each(self, bytes: Seq<u8>) -> PortModel
        decreases bytes.len(),
    {
        if bytes.len() == 0 {
            self
        } else {
            self.write_each(bytes.drop_last()).deliver(seq![bytes.last()])
        }
    }
}

/// The bytes that `ctx` tried to send in `schedule`, in the order of its attempts.
pub open spec fn bytes_sent_by(ctx: u64, schedule: Seq<(u64, PortEvent)>) -> Seq<u8>
    decreases schedule.len(),
{
    if schedule.len() == 0 {
        Seq::empty()
    } else {
        let before = bytes_sent_by(ctx, schedule.drop_last());
        match schedule.last() {
            (c, PortEvent::Write(b)) => if c == ctx {
                before.push(b)
            } else {
                before
            },
            _ => before,
        }
    }
}

/// Whether `ctx` never gives the lock back anywhere in `schedule`.
pub open spec fn keeps_lock(ctx: u64, schedule: Seq<(u64, PortEvent)>) -> bool {
    forall|i: int|
        0 <= i < schedule.len() ==> !((#[trigger] schedule[i]).0 == ctx && schedule[i].1
            is Release)
}

/// The single debug console port of the machine.
///
/// Bytes written to it are kept until the caller takes them with
/// [`ConsolePort::take_output`] to put them on the wire.
pub struct ConsolePort {
    pending: Vec<u8>,
    forwarded: Ghost<Seq<u8>>,
    holder: Option<u64>,
}

impl View for ConsolePort {
    type V = PortModel;

    closed spec fn view(&self) -> PortModel {
        PortModel {
            transcript: self.forwarded@ + self.pending@,
            holder: self.holder,
            taken: self.forwarded@.len(),
        }
    }
}

impl ConsolePort {
    /// What was taken is part of what was written.
    pub proof fn lemma_taken_is_written(&self)
        ensures
            self@.taken <= self@.transcript.len(),
    {
    }

    /// A port that nothing was written to and that nobody holds.
    pub fn new() -> (port: ConsolePort)
        ensures
            port@ == PortModel::fresh(),
    {
        ConsolePort { pending: Vec::new(), forwarded: Ghost(Seq::empty()), holder: None }
    }

    /// The context that holds the lock, if any.
    pub fn holder(&self) -> (holder: Option<u64>)
        ensures
            holder == self@.holder,
    {
        self.holder
    }

    /// One attempt of `ctx` to take the lock; `true` when it now holds it.
    ///
    /// The lock is not reentrant: a context that already holds it fails like
    /// any other.
    pub fn try_lock(&mut self, ctx: u64) -> (taken: bool)
        ensures
            taken == (old(self)@.holder is None),
            final(self)@ == old(self)@.acquire(ctx),
    {
        if self.holder.is_none() {
            self.holder = Some(ctx);
            true
        } else {
            false
        }
    }

    /// `ctx` gives the lock back; `true` when it held it.
    pub fn unlock(&mut self, ctx: u64) -> (freed: bool)
        ensures
            freed == (old(self)@.holder == Some(ctx)),
            final(self)@ == old(self)@.release(ctx),
    {
        match self.holder {
            Some(h) => {
                if h == ctx {
                    self.holder = None;
                    true
                } else {
                    false
                }
            },
            None => false,
        }
    }

    /// `ctx` sends `b` under a lock it already holds; `true` when the byte
    /// reached the port.
    pub fn put(&mut self, ctx: u64, b: u8) -> (sent: bool)
        ensures
            sent == (old(self)@.holder == Some(ctx)),
            final(self)@ == old(self)@.write(ctx, b),
    {
        let held: bool = match self.holder {
            Some(h) => h == ctx,
            None => false,
        };
        if held {
            self.pending.push(b);
            assert(self.forwarded@ + self.pending@ == (self.forwarded@ + old(self).pending@).push(
                b,
            ));
        }
        held
    }

    /// `ctx` takes the lock, sends `b` and gives the lock back; `true` when the
    /// byte reached the port.
    ///
    /// Where the lock is held, by `ctx` itself or by another context, nothing
    /// is written and the port stays as it was.
    pub fn write_byte(&mut self, ctx: u64, b: u8) -> (sent: bool)
        ensures
            sent == (old(self)@.holder is None),
            final(self)@ == old(self)@.deliver(seq![b]),
    {
        if self.try_lock(ctx) {
            self.put(ctx, b);
            self.unlock(ctx);
            assert(old(self)@.transcript.push(b) == old(self)@.transcript + seq![b]);
            true
        } else {
            false
        }
    }

    /// Hands out the bytes written since the last call, oldest first, for the
    /// caller to put on the wire. The transcript keeps them.
    pub fn take_output(&mut self) -> (out: Vec<u8>)
        ensures
            out@ == old(self)@.pending(),
            final(self)@ == old(self)@.all_taken(),
    {
        let mut out: Vec<u8> = Vec::new();
        std::mem::swap(&mut out, &mut self.pending);
        self.forwarded = Ghost(self.forwarded@ + out@);
        assert(self.forwarded@ + self.pending@ == old(self).forwarded@ + old(self).pending@);
        assert(old(self)@.pending() == out@);
        out
    }
}

/// While a context holds the lock and does not give it back, the bytes that
/// reach the port are exactly its own, in the order in which it sent them,
/// whatever other contexts attempt in between.
pub proof fn lemma_holder_owns_the_stream(
    port: PortModel,
    ctx: u64,
    schedule: Seq<(u64, PortEvent)>,
)
    requires
        port.holder == Some(ctx),
        keeps_lock(ctx, schedule),
    ensures
        port.run(schedule) == (PortModel {
            transcript: port.transcript + bytes_sent_by(ctx, schedule),
            ..port
        }),
    decreases schedule.len(),
{
    if schedule.len() > 0 {
        let earlier = schedule.drop_last();
        assert forall|i: int| 0 <= i < earlier.len() implies !((#[trigger] earlier[i]).0 == ctx
            && earlier[i].1 is Release) by {
            assert(earlier[i] == schedule[i]);
        }
        lemma_holder_owns_the_stream(port, ctx, earlier);
        let last = schedule[schedule.len() - 1];
        assert(last == schedule.last());
        assert(!(last.0 == ctx && last.1 is Release));
    } else {
        assert(port.transcript + bytes_sent_by(ctx, schedule) == port.transcript);
    }
}

/// The bytes of a request are never mixed with those of another: from the
/// moment a context takes the lock of a free port to the moment it gives the
/// lock back, whatever the other contexts attempt and in whatever order, the
/// port receives the bytes of that context alone, as one request.
pub proof fn lemma_requests_never_interleave(
    port: PortModel,
    ctx: u64,
    schedule: Seq<(u64, PortEvent)>,
)
    requires
        port.holder is None,
        keeps_lock(ctx, schedule),
    ensures
        port.acquire(ctx).run(schedule).release(ctx) == port.deliver(
            bytes_sent_by(ctx, schedule),
        ),
{
    lemma_holder_owns_the_stream(port.acquire(ctx), ctx, schedule);
}

/// Nothing that reached the port is ever taken back or reordered: after any
/// schedule the earlier transcript is still the beginning of the later one.
pub proof fn lemma_transcript_only_grows(port: PortModel, schedule: Seq<(u64, PortEvent)>)
    ensures
        port.transcript.is_prefix_of(port.run(schedule).transcript),
    decreases schedule.len(),
{
    if schedule.len() > 0 {
        lemma_transcript_only_grows(port, schedule.drop_last());
    }
}

/// At most one context holds the lock: an attempt of a context that does not
/// hold it, other than taking a free lock, leaves the port as it was.
pub proof fn lemma_lock_excludes(port: PortModel, holder: u64, other: u64, event: PortEvent)
    requires
        port.holder == Some(holder),
        other != holder,
    ensures
        port.step(other, event) == port,
{
}

/// A context that holds the lock gets its bytes to the port one by one, in
/// the order issued.
pub proof fn lemma_write_all(port: PortModel, ctx: u64, bytes: Seq<u8>)
    requires
        port.holder == Some(ctx),
    ensures
        port.write_all(ctx, bytes).holder == Some(ctx),
        port.write_all(ctx, bytes).transcript == port.transcript + bytes,
    decreases bytes.len(),
{
    if bytes.len() > 0 {
        lemma_write_all(port, ctx, bytes.drop_last());
        assert(bytes == bytes.drop_last().push(bytes.last()));
    }
}

/// A request is what it is made of: a context that takes the lock of a free
/// port, sends the bytes one by one and gives the lock back has delivered the
/// request.
pub proof fn lemma_request_is_whole(port: PortModel, ctx: u64, bytes: Seq<u8>)
    requires
        port.holder is None,
    ensures
        port.acquire(ctx).write_all(ctx, bytes).release(ctx) == port.deliver(bytes),
{
    lemma_write_all(port.acquire(ctx), ctx, bytes);
    lemma_write_all_keeps(port.acquire(ctx), ctx, bytes);
}

/// The bytes that one caller writes to a free port, one call after the
/// other, are on the transcript in exactly the order of the calls, directly
/// after what was there before.
pub proof fn lemma_bytes_in_call_order(port: PortModel, bytes: Seq<u8>)
    requires
        port.holder is None,
    ensures
        port.write_each(bytes) == (PortModel { transcript: port.transcript + bytes, ..port }),
    decreases bytes.len(),
{
    if bytes.len() > 0 {
        lemma_bytes_in_call_order(port, bytes.drop_last());
        assert(port.transcript + bytes.drop_last() + seq![bytes.last()] == port.transcript
            + bytes);
    } else {
        assert(port.transcript + bytes == port.transcript);
    }
}

/// Sending bytes changes neither the holder nor what was taken.
proof fn lemma_write_all_keeps(port: PortModel, ctx: u64, bytes: Seq<u8>)
    ensures
        port.write_all(ctx, bytes).holder == port.holder,
        port.write_all(ctx, bytes).taken == port.taken,
    decreases bytes.len(),
{
    if bytes.len() > 0 {
        lemma_write_all_keeps(port, ctx, bytes.drop_last());
    }
}

} // verus!
