//! URB buffer pool: pre-allocated, reusable buffers for the hot path.
//!
//! Buffers live in a lock-free bounded queue shared by the pool and the
//! buffers it hands out; a handed-out buffer goes back to the queue when it
//! is dropped, unless the queue is full, and every buffer is zeroed when it
//! is handed out. Other holders of the queue
//! change it concurrently, so what a read of it gives is only bounded, never
//! fixed.
use vstd::prelude::*;
use crossbeam::queue::ArrayQueue;
use std::sync::Arc;
use crate::urb::UrbBuffer;

verus! {

#[verifier::external_type_specification]
#[verifier::external_body]
#[verifier::reject_recursive_types(T)]
pub struct ExArrayQueue<T>(ArrayQueue<T>);

/// The capacity an `ArrayQueue` was created with.
pub uninterp spec fn queue_capacity(q: ArrayQueue<UrbBuffer>) -> usize;

/// `ArrayQueue::new`: an empty queue of capacity `cap` (it panics for 0).
#[verifier::external_body]
fn queue_new(cap: usize) -> (q: ArrayQueue<UrbBuffer>)
    requires
        cap > 0,
    ensures
        queue_capacity(q) == cap,
{
    ArrayQueue::new(cap)
}

/// `ArrayQueue::push`: add `b` at the tail, or hand it back when the queue
/// is full. Other threads may push and pop at the same time, so which
/// happens is not stated. It does not panic.
#[verifier::external_body]
fn queue_push(q: &ArrayQueue<UrbBuffer>, b: UrbBuffer) -> (r: Result<(), UrbBuffer>)
    opens_invariants none
    no_unwind
{
    q.push(b)
}

/// `ArrayQueue::pop`: take the buffer at the head, if any; what it is
/// depends on the other holders of the queue, so nothing is stated.
#[verifier::external_body]
fn queue_pop(q: &ArrayQueue<UrbBuffer>) -> Option<UrbBuffer> {
    q.pop()
}

/// `ArrayQueue::len`: the number of buffers in the queue at the moment of
/// the call, never more than its capacity.
#[verifier::external_body]
fn queue_len(q: &ArrayQueue<UrbBuffer>) -> (n: usize)
    ensures
        n <= queue_capacity(*q),
{
    q.len()
}

/// `ArrayQueue::capacity`: the capacity the queue was created with.
#[verifier::external_body]
fn queue_cap(q: &ArrayQueue<UrbBuffer>) -> (n: usize)
    ensures
        n == queue_capacity(*q),
{
    q.capacity()
}

/// Default minimum number of buffers in a pool.
pub const DEFAULT_MIN_POOL_SIZE: usize = 1024;

/// Default data capacity of bulk-transfer buffers (16 KiB).
pub const DEFAULT_BULK_CAPACITY: usize = 16384;

/// Default data capacity of interrupt-transfer buffers (64 B).
pub const DEFAULT_INTERRUPT_CAPACITY: usize = 64;

/// Smallest queue capacity a pool gets.
pub const MIN_QUEUE_CAPACITY: usize = 4096;

/// The state a pool shares with the buffers it hands out.
pub struct PoolInner {
    queue: ArrayQueue<UrbBuffer>,
}

/// A thread-safe pool of pre-allocated URB buffers.
pub struct UrbBufferPool {
    inner: Arc<PoolInner>,
    data_capacity: usize,
    min_size: usize,
    max_size: usize,
}

/// The queue capacity of a pool with minimum size `min_size`: four times
/// the minimum, and at least 4096.
pub open spec fn pool_capacity(min_size: usize) -> usize {
    if min_size * 4 > MIN_QUEUE_CAPACITY {
        (min_size * 4) as usize
    } else {
        MIN_QUEUE_CAPACITY
    }
}

/// The pool size aimed at for a rate-derived `target`: at least the
/// minimum size and at most the maximum.
pub open spec fn clamp_size(target: usize, min_size: usize, max_size: usize) -> usize {
    let t = if target < min_size {
        min_size
    } else {
        target
    };
    if t > max_size {
        max_size
    } else {
        t
    }
}

/// What growing a pool of maximum size `max_size` towards `desired`
/// gives when it held `current` buffers at the start: nothing when it held
/// enough; else `r.0` buffers were added, all that were missing unless a
/// push was refused (`r.1`), and then fewer.
pub open spec fn growth(max_size: usize, desired: usize, current: usize, r: (usize, bool)) -> bool {
    &&& current <= max_size
    &&& desired <= current ==> r == (0usize, false)
    &&& desired > current ==> {
        &&& r.1 ==> r.0 < desired - current
        &&& !r.1 ==> r.0 == desired - current
    }
}

impl UrbBufferPool {
    /// Data capacity of the pool's buffers.
    pub closed spec fn spec_data_capacity(&self) -> usize {
        self.data_capacity
    }

    /// The pool never shrinks below this size.
    pub closed spec fn spec_min_size(&self) -> usize {
        self.min_size
    }

    /// The pool never grows beyond this size (its queue's capacity).
    pub closed spec fn spec_max_size(&self) -> usize {
        self.max_size
    }

    /// The pool's queue has the pool's maximum size as capacity, and
    /// its buffers' layout fits in memory.
    pub closed spec fn wf(&self) -> bool {
        &&& queue_capacity(self.inner.queue) == self.max_size
        &&& self.data_capacity + 56 <= usize::MAX
    }

    /// A pool whose buffers hold `data_capacity` data bytes, pre-filled with
    /// `min_size` buffers, with room for four times that (at least 4096).
    pub fn new(data_capacity: usize, min_size: usize) -> (p: Self)
        requires
            data_capacity + 56 <= usize::MAX,
            min_size * 4 <= usize::MAX,
        ensures
            p.wf(),
            p.spec_data_capacity() == data_capacity,
            p.spec_min_size() == min_size,
            p.spec_max_size() == pool_capacity(min_size),
    {
        let four = min_size * 4;
        let max_size = if four > MIN_QUEUE_CAPACITY {
            four
        } else {
            MIN_QUEUE_CAPACITY
        };
        let queue = queue_new(max_size);
        let mut i: usize = 0;
        while i < min_size
            invariant
                i <= min_size,
                data_capacity + 56 <= usize::MAX,
            decreases min_size - i,
        {
            let buf = UrbBuffer::new(data_capacity);
            let _ = queue_push(&queue, buf);
            i = i + 1;
        }
        UrbBufferPool { inner: Arc::new(PoolInner { queue }), data_capacity, min_size, max_size }
    }

    /// A pool of 16 KiB buffers for bulk transfers.
    pub fn new_bulk(min_size: usize) -> (p: Self)
        requires
            min_size * 4 <= usize::MAX,
        ensures
            p.wf(),
            p.spec_data_capacity() == DEFAULT_BULK_CAPACITY,
            p.spec_min_size() == min_size,
            p.spec_max_size() == pool_capacity(min_size),
    {
        Self::new(DEFAULT_BULK_CAPACITY, min_size)
    }

    /// A pool of 64-byte buffers for interrupt transfers.
    pub fn new_interrupt(min_size: usize) -> (p: Self)
        requires
            min_size * 4 <= usize::MAX,
        ensures
            p.wf(),
            p.spec_data_capacity() == DEFAULT_INTERRUPT_CAPACITY,
            p.spec_min_size() == min_size,
            p.spec_max_size() == pool_capacity(min_size),
    {
        Self::new(DEFAULT_INTERRUPT_CAPACITY, min_size)
    }

    /// A zeroed buffer of the pool's layout: one taken from the pool, or a
    /// fresh one when the pool is empty (or hands back a buffer of another
    /// layout, which is then dropped); it returns to the pool when dropped.
    pub fn acquire(&self) -> (b: PooledBuffer)
        requires
            self.wf(),
        ensures
            b.wf(),
            b.is_pooled(),
            b.buffer().data_capacity == self.spec_data_capacity(),
            b.buffer().data_offset == 56,
            b.buffer().buf@ == Seq::new((56 + self.spec_data_capacity()) as nat, |i: int| 0u8),
    {
        let cap = self.data_capacity;
        let buf = match queue_pop(&self.inner.queue) {
            Some(b) => {
                if b.data_capacity == cap && b.data_offset == 56 && b.buf.len() == 56 + cap {
                    let mut b = b;
                    b.reset();
                    b
                } else {
                    UrbBuffer::new(cap)
                }
            },
            None => UrbBuffer::new(cap),
        };
        PooledBuffer { inner: Some(buf), pool: Some(self.inner.clone()) }
    }

    /// Number of buffers available in the pool right now.
    pub fn available(&self) -> (n: usize)
        requires
            self.wf(),
        ensures
            n <= self.spec_max_size(),
    {
        queue_len(&self.inner.queue)
    }

    /// The most buffers the pool can hold.
    pub fn capacity(&self) -> (n: usize)
        requires
            self.wf(),
        ensures
            n == self.spec_max_size(),
    {
        queue_cap(&self.inner.queue)
    }

    /// The pool size to aim at for a rate-derived `target`, within the
    /// pool's minimum and maximum sizes.
    pub fn desired_size(&self, target: usize) -> (n: usize)
        ensures
            n == clamp_size(target, self.spec_min_size(), self.spec_max_size()),
    {
        let t = if target < self.min_size {
            self.min_size
        } else {
            target
        };
        if t > self.max_size {
            self.max_size
        } else {
            t
        }
    }

    /// Add fresh buffers of the pool's layout until the pool holds
    /// `desired`, as counted once at the start, stopping at the first push
    /// the full queue refuses. Returns how many were added and whether a
    /// push was refused. Other holders of the queue push and pop at the same
    /// time, so the count read at the start is only known to be within the
    /// capacity.
    pub fn grow_to(&self, desired: usize) -> (r: (usize, bool))
        requires
            self.wf(),
        ensures
            exists|current: usize| #[trigger]
                growth(self.spec_max_size(), desired, current, r),
    {
        let current = queue_len(&self.inner.queue);
        if desired <= current {
            assert(growth(self.spec_max_size(), desired, current, (0usize, false)));
            return (0, false);
        }
        let to_add = desired - current;
        let mut added: usize = 0;
        while added < to_add
            invariant
                added <= to_add,
                to_add == desired - current,
                current <= self.spec_max_size(),
                self.wf(),
            decreases to_add - added,
        {
            match queue_push(&self.inner.queue, UrbBuffer::new(self.data_capacity)) {
                Ok(()) => {},
                Err(_) => {
                    assert(growth(self.spec_max_size(), desired, current, (added, true)));
                    return (added, true);
                },
            }
            added = added + 1;
        }
        assert(growth(self.spec_max_size(), desired, current, (added, false)));
        (added, false)
    }

    /// Share the pool.
    pub fn into_arc(self) -> (a: Arc<UrbBufferPool>)
        ensures
            *a == self,
    {
        Arc::new(self)
    }
}

/// A buffer taken from a pool; dropping it returns it to the pool.
pub struct PooledBuffer {
    inner: Option<UrbBuffer>,
    pool: Option<Arc<PoolInner>>,
}

impl PooledBuffer {
    /// The buffer is still held (it has not been taken out).
    pub closed spec fn wf(&self) -> bool {
        self.inner is Some
    }

    /// Whether the buffer goes back to a pool when dropped.
    pub closed spec fn is_pooled(&self) -> bool {
        self.pool is Some
    }

    /// The held buffer.
    pub closed spec fn buffer(&self) -> UrbBuffer {
        self.inner->0
    }

    /// The bytes of the buffer.
    pub fn as_slice(&self) -> (s: &[u8])
        requires
            self.wf(),
        ensures
            s@ == self.buffer().buf@,
    {
        match &self.inner {
            Some(b) => b.buf.as_slice(),
            None => vstd::pervasive::unreached(),
        }
    }

    /// The bytes of the buffer, writable.
    pub fn as_mut_slice(&mut self) -> (s: &mut [u8])
        requires
            old(self).wf(),
        ensures
            s@ == old(self).buffer().buf@,
            final(self).wf(),
            final(self).is_pooled() == old(self).is_pooled(),
            final(self).buffer().buf@ == final(s)@,
            final(self).buffer().data_offset == old(self).buffer().data_offset,
            final(self).buffer().data_capacity == old(self).buffer().data_capacity,
    {
        match &mut self.inner {
            Some(b) => b.buf.as_mut_slice(),
            None => vstd::pervasive::unreached(),
        }
    }

    /// Number of payload bytes the buffer can hold.
    pub fn data_capacity(&self) -> (n: usize)
        requires
            self.wf(),
        ensures
            n == self.buffer().data_capacity,
    {
        match &self.inner {
            Some(b) => b.data_capacity,
            None => vstd::pervasive::unreached(),
        }
    }

    /// Offset of the payload in the buffer.
    pub fn data_offset(&self) -> (n: usize)
        requires
            self.wf(),
        ensures
            n == self.buffer().data_offset,
    {
        match &self.inner {
            Some(b) => b.data_offset,
            None => vstd::pervasive::unreached(),
        }
    }

    /// Take the buffer out; it will not go back to the pool.
    pub fn take(self) -> (b: UrbBuffer)
        requires
            self.wf(),
        ensures
            b == self.buffer(),
    {
        let mut this = self;
        let mut out: Option<UrbBuffer> = None;
        std::mem::swap(&mut out, &mut this.inner);
        match out {
            Some(b) => b,
            None => vstd::pervasive::unreached(),
        }
    }

    /// Zero the buffer's bytes, keeping its length.
    pub fn reset(&mut self)
        ensures
            final(self).wf() == old(self).wf(),
            final(self).is_pooled() == old(self).is_pooled(),
            old(self).wf() ==> final(self).buffer().buf@ == Seq::new(
                old(self).buffer().buf@.len(),
                |i: int| 0u8,
            ),
    {
        match &mut self.inner {
            Some(b) => b.reset(),
            None => {},
        }
    }
}

impl Drop for PooledBuffer {
    /// Give the buffer back to its pool; when the pool is full the buffer
    /// is freed instead.
    fn drop(&mut self)
        opens_invariants none
        no_unwind
    {
        let mut out: Option<UrbBuffer> = None;
        std::mem::swap(&mut out, &mut self.inner);
        match out {
            Some(b) => match &self.pool {
                Some(pool) => {
                    let _ = queue_push(&pool.queue, b);
                },
                None => {},
            },
            None => {},
        }
    }
}

} // verus!
