//! URB reply batching: sequential RET_SUBMIT replies are gathered into one
//! buffer and written together. The caller flushes when the batch is full,
//! a command arrives out of sequence, the batch's time is up, or the next
//! reply would not fit.
use vstd::prelude::*;
use core::time::Duration;
use std::time::Instant;
use crate::reply::{reply_bytes, serialize_reply, serialize_reply_into};
use crate::urb::UsbIpCmdSubmit;
use crate::urb_executor::UrbResult;

verus! {

#[verifier::external_type_specification]
#[verifier::external_body]
pub struct ExInstant(std::time::Instant);

/// The length of a duration in nanoseconds.
pub uninterp spec fn duration_nanos(d: Duration) -> u128;

/// `Duration::from_micros`: the duration of `micros` microseconds.
#[verifier::external_body]
fn duration_from_micros(micros: u64) -> (d: Duration)
    ensures
        duration_nanos(d) == micros * 1000,
{
    Duration::from_micros(micros)
}

/// `Duration::as_nanos`: the total number of nanoseconds of `d`.
#[verifier::external_body]
fn duration_as_nanos(d: &Duration) -> (n: u128)
    ensures
        n == duration_nanos(*d),
{
    d.as_nanos()
}

/// `Instant::now`: the current instant of the monotonic clock; nothing is
/// stated of it.
#[verifier::external_body]
fn instant_now() -> Instant {
    Instant::now()
}

/// `Instant::elapsed`: the time since `start`; it depends on the clock, so
/// nothing is stated of it.
#[verifier::external_body]
fn instant_elapsed(start: &Instant) -> Duration {
    start.elapsed()
}

/// Batches one after the other, as one byte sequence.
pub open spec fn joined(fs: Seq<Vec<u8>>) -> Seq<u8>
    decreases fs.len(),
{
    if fs.len() == 0 {
        Seq::empty()
    } else {
        joined(fs.drop_last()) + fs.last()@
    }
}

/// The sequence number that follows `last`, wrapping at `u32::MAX`.
pub open spec fn next_seqnum(last: u32) -> u32 {
    if last == u32::MAX {
        0
    } else {
        (last + 1) as u32
    }
}

/// Default maximum number of URBs per batch.
pub const DEFAULT_BATCH_SIZE: usize = 8;

/// Default maximum delay before a flush, in microseconds.
pub const DEFAULT_BATCH_TIMEOUT_MICROS: u64 = 200;

/// Maximum buffer capacity for a single batch (64 KiB).
pub const MAX_BATCH_CAPACITY: usize = 65536;

/// The size a reply is budgeted at when checking the capacity: the 8-byte
/// header and the 44-byte RET_SUBMIT (the data comes on top).
pub const REPLY_BUDGET: usize = 52;

/// Default maximum delay before a flush (200 µs).
pub fn default_batch_timeout() -> (d: Duration)
    ensures
        duration_nanos(d) == DEFAULT_BATCH_TIMEOUT_MICROS * 1000,
{
    duration_from_micros(DEFAULT_BATCH_TIMEOUT_MICROS)
}

/// Accumulates sequential URB replies for batched writes.
pub struct UrbBatcher {
    buffer: Vec<u8>,
    max_batch: usize,
    timeout: Duration,
    batch_start: Option<Instant>,
    last_seqnum: Option<u32>,
    count: usize,
}

impl UrbBatcher {
    /// The replies gathered so far, as wire bytes.
    pub closed spec fn pending(&self) -> Seq<u8> {
        self.buffer@
    }

    /// Number of URBs in the current batch.
    pub closed spec fn batch_len(&self) -> nat {
        self.count as nat
    }

    /// Maximum number of URBs per batch.
    pub closed spec fn max_batch(&self) -> nat {
        self.max_batch as nat
    }

    /// The batch delay in nanoseconds.
    pub closed spec fn timeout_nanos(&self) -> u128 {
        duration_nanos(self.timeout)
    }

    /// Sequence number of the last URB accepted, across batches.
    pub closed spec fn last_seqnum(&self) -> Option<u32> {
        self.last_seqnum
    }

    /// When the first URB of the current batch was accepted.
    pub closed spec fn batch_start(&self) -> Option<Instant> {
        self.batch_start
    }

    /// The batch is empty exactly when it counts no URB and has no start
    /// time, and each URB adds at least a header and a RET_SUBMIT.
    pub closed spec fn wf(&self) -> bool {
        &&& (self.count == 0) == (self.buffer@.len() == 0)
        &&& (self.batch_start is Some) == (self.buffer@.len() > 0)
        &&& 52 * self.count <= self.buffer@.len()
        &&& self.buffer@.len() <= MAX_BATCH_CAPACITY
    }

    /// Whether a push is refused, so that the caller must flush first: the
    /// command does not follow the last sequence number, the batch is full,
    /// its time is up (each of these only with something pending), or the
    /// reply would exceed the capacity.
    pub open spec fn refuses(&self, seqnum: u32, data_len: nat, timer_expired: bool) -> bool {
        let nonempty = self.pending().len() > 0;
        ||| (self.last_seqnum() matches Some(last) && seqnum != next_seqnum(last) && nonempty)
        ||| (self.batch_len() >= self.max_batch() && nonempty)
        ||| (timer_expired && nonempty)
        ||| self.pending().len() + REPLY_BUDGET + data_len > MAX_BATCH_CAPACITY
    }

    /// How a push changes the batcher and what it returns.
    pub open spec fn push_outcome(
        before: UrbBatcher,
        after: UrbBatcher,
        cmd: UsbIpCmdSubmit,
        status: i32,
        actual_length: u32,
        data: Seq<u8>,
        timer_expired: bool,
        r: bool,
    ) -> bool {
        &&& after.wf()
        &&& after.max_batch() == before.max_batch()
        &&& after.timeout_nanos() == before.timeout_nanos()
        &&& if before.refuses(cmd.seqnum, data.len(), timer_expired) {
            &&& r
            &&& after.pending() == before.pending()
            &&& after.batch_len() == before.batch_len()
            &&& after.last_seqnum() == before.last_seqnum()
            &&& after.batch_start() == before.batch_start()
        } else {
            &&& after.pending() == before.pending() + reply_bytes(cmd, status, actual_length, data)
            &&& after.batch_len() == before.batch_len() + 1
            &&& after.last_seqnum() == Some(cmd.seqnum)
            &&& (before.pending().len() > 0 ==> after.batch_start() == before.batch_start())
            &&& r == (before.batch_len() + 1 >= before.max_batch())
        }
    }

    /// A batcher with the default batch size and delay.
    pub fn new() -> (b: Self)
        ensures
            b.wf(),
            b.pending().len() == 0,
            b.batch_len() == 0,
            b.max_batch() == DEFAULT_BATCH_SIZE,
            b.timeout_nanos() == DEFAULT_BATCH_TIMEOUT_MICROS * 1000,
            b.last_seqnum() is None,
    {
        Self::with_config(DEFAULT_BATCH_SIZE, default_batch_timeout())
    }

    /// A batcher with the given batch size and delay.
    pub fn with_config(max_batch: usize, timeout: Duration) -> (b: Self)
        ensures
            b.wf(),
            b.pending().len() == 0,
            b.batch_len() == 0,
            b.max_batch() == max_batch,
            b.timeout_nanos() == duration_nanos(timeout),
            b.last_seqnum() is None,
    {
        UrbBatcher {
            buffer: Vec::new(),
            max_batch,
            timeout,
            batch_start: None,
            last_seqnum: None,
            count: 0,
        }
    }

    /// Whether `elapsed` reaches this batcher's delay.
    pub fn expired_after(&self, elapsed: &Duration) -> (r: bool)
        ensures
            r == (duration_nanos(*elapsed) >= self.timeout_nanos()),
    {
        duration_as_nanos(elapsed) >= duration_as_nanos(&self.timeout)
    }

    /// Add a URB reply, given whether the batch's time is up; returns
    /// whether the caller must flush before going on. A refused reply is
    /// not added.
    pub fn push_timed(&mut self, cmd: &UsbIpCmdSubmit, result: &UrbResult, timer_expired: bool) -> (r:
        bool)
        requires
            old(self).wf(),
        ensures
            Self::push_outcome(
                *old(self),
                *final(self),
                *cmd,
                result.status,
                result.actual_length,
                result.data@,
                timer_expired,
                r,
            ),
    {
        let seqnum = cmd.seqnum;
        let nonempty = self.buffer.len() > 0;
        match self.last_seqnum {
            Some(last) => {
                if seqnum != last.wrapping_add(1) && nonempty {
                    return true;
                }
            },
            None => {},
        }
        if self.count >= self.max_batch && nonempty {
            return true;
        }
        if timer_expired && nonempty {
            return true;
        }
        if result.data.len() > MAX_BATCH_CAPACITY || self.buffer.len() + REPLY_BUDGET
            + result.data.len() > MAX_BATCH_CAPACITY {
            return true;
        }
        serialize_reply_into(
            &mut self.buffer,
            cmd,
            result.status,
            result.actual_length,
            result.data.as_slice(),
        );
        self.count = self.count + 1;
        self.last_seqnum = Some(seqnum);
        if self.batch_start.is_none() {
            self.batch_start = Some(instant_now());
        }
        self.count >= self.max_batch
    }

    /// Add a URB reply and return whether the caller must flush before going
    /// on (batch full, out-of-sequence command, time up, or no room). The
    /// time check reads the clock, so the outcome is that of
    /// [`UrbBatcher::push_timed`] for some reading; with nothing pending the
    /// reading does not matter.
    pub fn push(&mut self, cmd: &UsbIpCmdSubmit, result: &UrbResult) -> (r: bool)
        requires
            old(self).wf(),
        ensures
            exists|t: bool|
                Self::push_outcome(
                    *old(self),
                    *final(self),
                    *cmd,
                    result.status,
                    result.actual_length,
                    result.data@,
                    t,
                    r,
                ),
            old(self).pending().len() == 0 ==> Self::push_outcome(
                *old(self),
                *final(self),
                *cmd,
                result.status,
                result.actual_length,
                result.data@,
                false,
                r,
            ),
    {
        let timer_expired = match &self.batch_start {
            Some(start) => {
                let elapsed = instant_elapsed(start);
                self.expired_after(&elapsed)
            },
            None => false,
        };
        self.push_timed(cmd, result, timer_expired)
    }

    /// Whether the batch has something pending and its time is up: the
    /// time read from the clock since the batch started has reached the
    /// timeout. Which reading the clock gives is not stated.
    pub fn should_timeout(&self) -> (r: bool)
        requires
            self.wf(),
        ensures
            r ==> self.pending().len() > 0,
            self.pending().len() > 0 ==> exists|elapsed: Duration|
                r == (duration_nanos(elapsed) >= self.timeout_nanos()),
    {
        match &self.batch_start {
            Some(start) => {
                let elapsed = instant_elapsed(start);
                self.expired_after(&elapsed) && self.buffer.len() > 0
            },
            None => false,
        }
    }

    /// Take the gathered replies and start a new batch; the last sequence
    /// number is kept, so out-of-sequence detection spans batches.
    pub fn flush(&mut self) -> (r: Vec<u8>)
        requires
            old(self).wf(),
        ensures
            r@ == old(self).pending(),
            final(self).wf(),
            final(self).pending().len() == 0,
            final(self).batch_len() == 0,
            final(self).batch_start() is None,
            final(self).last_seqnum() == old(self).last_seqnum(),
            final(self).max_batch() == old(self).max_batch(),
            final(self).timeout_nanos() == old(self).timeout_nanos(),
    {
        let mut data: Vec<u8> = Vec::new();
        std::mem::swap(&mut data, &mut self.buffer);
        self.batch_start = None;
        self.count = 0;
        data
    }

    /// Number of URBs in the current batch.
    pub fn len(&self) -> (n: usize)
        ensures
            n == self.batch_len(),
    {
        self.count
    }

    /// Batch the reply to a command: the batches to send now, in order,
    /// and the rest kept pending. A push the batch refuses first sends what
    /// is pending and starts a new batch with the reply (a reply too large
    /// for any batch goes out alone); a full batch is sent at once. No
    /// reply is lost and the order is kept: what is sent followed by what
    /// stays pending is what was pending followed by the reply.
    pub fn submit(&mut self, cmd: &UsbIpCmdSubmit, result: &UrbResult) -> (frames: Vec<Vec<u8>>)
        requires
            old(self).wf(),
        ensures
            final(self).wf(),
            joined(frames@) + final(self).pending() == old(self).pending() + reply_bytes(
                *cmd,
                result.status,
                result.actual_length,
                result.data@,
            ),
            forall|i: int| 0 <= i < frames@.len() ==> (#[trigger] frames@[i])@.len() > 0,
            final(self).max_batch() == old(self).max_batch(),
            final(self).timeout_nanos() == old(self).timeout_nanos(),
    {
        let ghost reply = reply_bytes(*cmd, result.status, result.actual_length, result.data@);
        let ghost start = self.pending();
        let mut frames: Vec<Vec<u8>> = Vec::new();
        let before = self.len();
        let full = self.push(cmd, result);
        if self.len() != before {
            if full {
                let b = self.flush();
                frames.push(b);
                assert(joined(frames@) =~= b@) by {
                    reveal_with_fuel(joined, 2);
                }
            } else {
                assert(joined(frames@) =~= Seq::<u8>::empty());
            }
            assert(joined(frames@) + self.pending() =~= start + reply);
        } else {
            let ghost mut first: Seq<u8> = Seq::empty();
            if !self.is_empty() {
                let b = self.flush();
                proof {
                    first = b@;
                }
                frames.push(b);
            }
            assert(joined(frames@) =~= first) by {
                reveal_with_fuel(joined, 2);
            }
            assert(first == start);
            let full2 = self.push(cmd, result);
            if self.len() == 0 {
                let alone = serialize_reply(cmd, result.status, result.actual_length, result.data.as_slice());
                let ghost prev = frames@;
                frames.push(alone);
                assert(frames@.drop_last() =~= prev);
                assert(joined(frames@) =~= start + reply);
            } else if full2 {
                let b = self.flush();
                let ghost prev = frames@;
                frames.push(b);
                assert(frames@.drop_last() =~= prev);
                assert(joined(frames@) =~= start + reply);
            }
            assert(joined(frames@) + self.pending() =~= start + reply);
        }
        frames
    }

    /// Send the batch when its time is up: the pending replies, and a new
    /// batch starts; `None`, with nothing changed, when the time is not up
    /// or nothing is pending. Which reading the clock gives is not stated.
    pub fn flush_if_due(&mut self) -> (r: Option<Vec<u8>>)
        requires
            old(self).wf(),
        ensures
            final(self).wf(),
            r is None ==> *final(self) == *old(self),
            r matches Some(b) ==> {
                &&& b@ == old(self).pending()
                &&& b@.len() > 0
                &&& final(self).pending().len() == 0
                &&& final(self).last_seqnum() == old(self).last_seqnum()
                &&& final(self).max_batch() == old(self).max_batch()
                &&& final(self).timeout_nanos() == old(self).timeout_nanos()
            },
            old(self).pending().len() > 0 ==> exists|elapsed: Duration|
                (r is Some) == (duration_nanos(elapsed) >= old(self).timeout_nanos()),
    {
        if self.should_timeout() {
            Some(self.flush())
        } else {
            None
        }
    }

    /// Whether the current batch holds no URB.
    pub fn is_empty(&self) -> (b: bool)
        requires
            self.wf(),
        ensures
            b == (self.batch_len() == 0),
            b == (self.pending().len() == 0),
    {
        self.count == 0
    }
}

} // verus!

verus! {

/// A batch never holds more URBs than its size allows (one when the size
/// is 0): every push keeps the count within `max(max_batch, 1)`.
pub proof fn law_batch_size_bounded(
    before: UrbBatcher,
    after: UrbBatcher,
    cmd: UsbIpCmdSubmit,
    status: i32,
    actual_length: u32,
    data: Seq<u8>,
    timer_expired: bool,
    r: bool,
)
    requires
        before.wf(),
        before.batch_len() <= (if before.max_batch() > 0 {
            before.max_batch()
        } else {
            1
        }),
        UrbBatcher::push_outcome(before, after, cmd, status, actual_length, data, timer_expired, r),
    ensures
        after.batch_len() <= (if after.max_batch() > 0 {
            after.max_batch()
        } else {
            1
        }),
        after.batch_len() == after.max_batch() ==> r,
{
}

/// Replies leave in the order they were accepted: an accepted push appends
/// its reply after everything pending, and a refused one changes nothing.
pub proof fn law_pending_grows_by_reply(
    before: UrbBatcher,
    after: UrbBatcher,
    cmd: UsbIpCmdSubmit,
    status: i32,
    actual_length: u32,
    data: Seq<u8>,
    timer_expired: bool,
    r: bool,
)
    requires
        UrbBatcher::push_outcome(before, after, cmd, status, actual_length, data, timer_expired, r),
    ensures
        after.pending() == before.pending() || after.pending() == before.pending() + reply_bytes(
            cmd,
            status,
            actual_length,
            data,
        ),
        !r ==> after.pending() == before.pending() + reply_bytes(cmd, status, actual_length, data),
{
}

/// One push: the command, the reply's status, actual length and data, and
/// whether the batch's time was found up.
pub type PushStep = (UsbIpCmdSubmit, i32, u32, Seq<u8>, bool);

/// The replies that the first `n` pushes of `ps` added to a batch going
/// through the states `bs`: the reply of each push the batch accepted, in
/// order.
pub open spec fn accepted_replies(bs: Seq<UrbBatcher>, ps: Seq<PushStep>, n: nat) -> Seq<u8>
    decreases n,
{
    if n == 0 {
        Seq::empty()
    } else {
        let p = ps[n - 1];
        accepted_replies(bs, ps, (n - 1) as nat) + if bs[n - 1].refuses(p.0.seqnum, p.3.len(), p.4) {
            Seq::empty()
        } else {
            reply_bytes(p.0, p.1, p.2, p.3)
        }
    }
}

/// Whether `bs` are the states a batch goes through under the pushes
/// `ps`, each returning the flag in `rs`.
pub open spec fn push_run(bs: Seq<UrbBatcher>, ps: Seq<PushStep>, rs: Seq<bool>) -> bool {
    &&& bs.len() == ps.len() + 1
    &&& rs.len() == ps.len()
    &&& forall|i: int|
        0 <= i < ps.len() ==> #[trigger] UrbBatcher::push_outcome(
            bs[i],
            bs[i + 1],
            ps[i].0,
            ps[i].1,
            ps[i].2,
            ps[i].3,
            ps[i].4,
            rs[i],
        )
}

/// After any run of pushes the batch holds what it held before followed
/// by the replies of the accepted pushes, in the order they were pushed.
pub proof fn law_batch_holds_pushes_in_order(bs: Seq<UrbBatcher>, ps: Seq<PushStep>, rs: Seq<bool>)
    requires
        push_run(bs, ps, rs),
    ensures
        bs[ps.len() as int].pending() == bs[0].pending() + accepted_replies(bs, ps, ps.len()),
    decreases ps.len(),
{
    let n = ps.len() as int;
    if n > 0 {
        let bs1 = bs.drop_last();
        let ps1 = ps.drop_last();
        let rs1 = rs.drop_last();
        assert forall|i: int| 0 <= i < ps1.len() implies #[trigger] UrbBatcher::push_outcome(
            bs1[i],
            bs1[i + 1],
            ps1[i].0,
            ps1[i].1,
            ps1[i].2,
            ps1[i].3,
            ps1[i].4,
            rs1[i],
        ) by {
            assert(UrbBatcher::push_outcome(
                bs[i],
                bs[i + 1],
                ps[i].0,
                ps[i].1,
                ps[i].2,
                ps[i].3,
                ps[i].4,
                rs[i],
            ));
        }
        law_batch_holds_pushes_in_order(bs1, ps1, rs1);
        lemma_accepted_prefix(bs, ps, (n - 1) as nat);
        let p = ps[n - 1];
        assert(UrbBatcher::push_outcome(bs[n - 1], bs[n], p.0, p.1, p.2, p.3, p.4, rs[n - 1]));
    } else {
        assert(bs[0].pending() + Seq::<u8>::empty() =~= bs[0].pending());
    }
}

/// The accepted replies of a prefix of a run only read that prefix.
proof fn lemma_accepted_prefix(bs: Seq<UrbBatcher>, ps: Seq<PushStep>, k: nat)
    requires
        k < ps.len(),
        bs.len() == ps.len() + 1,
    ensures
        accepted_replies(bs.drop_last(), ps.drop_last(), k) == accepted_replies(bs, ps, k),
    decreases k,
{
    if k > 0 {
        lemma_accepted_prefix(bs, ps, (k - 1) as nat);
    }
}

/// A batch never holds more than `MAX_BATCH_CAPACITY` (64 KiB) bytes, so
/// no flush sends more.
pub proof fn law_batch_within_capacity(b: UrbBatcher)
    requires
        b.wf(),
    ensures
        b.pending().len() <= MAX_BATCH_CAPACITY,
{
}

} // verus!
