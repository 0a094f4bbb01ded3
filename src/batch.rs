use vstd::prelude::*;

verus! {

/// Largest batch the transform stage sends to the chain in one bulk call.
pub const TRANSFORM_BATCH_MAX: usize = 50;

/// Largest batch the load stage collects.
pub const LOAD_BATCH_MAX: usize = 64;

/// How long a stage waits, from a batch's first item, before flushing it.
pub const BATCH_MAX_WAIT_MS: u64 = 1_000;

/// Groups items into chunks, flushing a chunk as soon as it holds `max_count`
/// items or `max_wait_ms` milliseconds have passed since its first item
/// arrived, whichever comes first. Times are milliseconds on a monotonic
/// clock, supplied by the caller.
pub struct Batcher<T> {
    max_count: usize,
    max_wait_ms: u64,
    pending: Vec<T>,
    first_at: u64,
}

impl<T> Batcher<T> {
    pub closed spec fn max_count_spec(&self) -> nat {
        self.max_count as nat
    }

    pub closed spec fn max_wait_spec(&self) -> nat {
        self.max_wait_ms as nat
    }

    /// The items received and not yet flushed, in arrival order.
    pub closed spec fn pending_spec(&self) -> Seq<T> {
        self.pending@
    }

    /// When the first pending item arrived.
    pub closed spec fn first_at_spec(&self) -> nat {
        self.first_at as nat
    }

    /// A pending chunk is never full: it would have been flushed.
    pub closed spec fn wf(&self) -> bool {
        0 < self.max_count && self.pending@.len() < self.max_count
    }

    /// Whether the pending chunk is due at time `now`.
    pub open spec fn timed_out(&self, now: nat) -> bool {
        self.pending_spec().len() > 0 && now >= self.first_at_spec() + self.max_wait_spec()
    }

    pub fn new(max_count: usize, max_wait_ms: u64) -> (r: Self)
        requires
            max_count > 0,
        ensures
            r.wf(),
            r.max_count_spec() == max_count,
            r.max_wait_spec() == max_wait_ms,
            r.pending_spec() == Seq::<T>::empty(),
    {
        Batcher { max_count, max_wait_ms, pending: Vec::new(), first_at: 0 }
    }

    fn flush(&mut self) -> (c: Vec<T>)
        ensures
            c@ == old(self).pending@,
            final(self).pending@ == Seq::<T>::empty(),
            final(self).max_count == old(self).max_count,
            final(self).max_wait_ms == old(self).max_wait_ms,
    {
        let mut c: Vec<T> = Vec::new();
        std::mem::swap(&mut c, &mut self.pending);
        c
    }

    /// Takes one item that arrived at `now`. Returns the chunk it completes,
    /// holding every pending item and this one in arrival order, when the
    /// chunk reaches `max_count` items or its wait has run out; else keeps it
    /// pending.
    pub fn push(&mut self, item: T, now: u64) -> (r: Option<Vec<T>>)
        requires
            old(self).wf(),
        ensures
            final(self).wf(),
            final(self).max_count_spec() == old(self).max_count_spec(),
            final(self).max_wait_spec() == old(self).max_wait_spec(),
            ({
                let all = old(self).pending_spec().push(item);
                let started = if old(self).pending_spec().len() == 0 {
                    now as nat
                } else {
                    old(self).first_at_spec()
                };
                let due = all.len() == old(self).max_count_spec() || now >= started
                    + old(self).max_wait_spec();
                &&& due ==> (r matches Some(c) && c@ == all && final(self).pending_spec()
                    == Seq::<T>::empty())
                &&& !due ==> r is None && final(self).pending_spec() == all
                    && final(self).first_at_spec() == started
            }),
            r matches Some(c) ==> 0 < c@.len() <= old(self).max_count_spec(),
    {
        if self.pending.len() == 0 {
            self.first_at = now;
        }
        self.pending.push(item);
        let due = self.pending.len() == self.max_count || (now >= self.first_at && now
            - self.first_at >= self.max_wait_ms);
        if due {
            Some(self.flush())
        } else {
            None
        }
    }

    /// At time `now`, with no new item: returns the pending chunk if its wait
    /// has run out, else nothing.
    pub fn poll(&mut self, now: u64) -> (r: Option<Vec<T>>)
        requires
            old(self).wf(),
        ensures
            final(self).wf(),
            final(self).max_count_spec() == old(self).max_count_spec(),
            final(self).max_wait_spec() == old(self).max_wait_spec(),
            old(self).timed_out(now as nat) ==> (r matches Some(c) && c@ == old(self).pending_spec()
                && final(self).pending_spec() == Seq::<T>::empty()),
            !old(self).timed_out(now as nat) ==> r is None && *final(self) == *old(self),
            r matches Some(c) ==> 0 < c@.len() <= old(self).max_count_spec(),
    {
        if self.pending.len() > 0 && now >= self.first_at && now - self.first_at >= self.max_wait_ms {
            Some(self.flush())
        } else {
            None
        }
    }

    /// At the end of input: returns the pending chunk, if any.
    pub fn finish(&mut self) -> (r: Option<Vec<T>>)
        requires
            old(self).wf(),
        ensures
            final(self).wf(),
            final(self).pending_spec() == Seq::<T>::empty(),
            old(self).pending_spec().len() > 0 ==> (r matches Some(c) && c@
                == old(self).pending_spec()),
            old(self).pending_spec().len() == 0 ==> r is None,
            r matches Some(c) ==> 0 < c@.len() <= old(self).max_count_spec(),
    {
        if self.pending.len() > 0 {
            Some(self.flush())
        } else {
            None
        }
    }

    /// When the pending chunk falls due (saturating at the clock's end), or
    /// nothing when no item is pending.
    pub fn deadline(&self) -> (r: Option<u64>)
        ensures
            self.pending_spec().len() == 0 ==> r is None,
            self.pending_spec().len() > 0 ==> (r matches Some(t) && t == (if self.first_at_spec()
                + self.max_wait_spec() <= u64::MAX {
                self.first_at_spec() + self.max_wait_spec()
            } else {
                u64::MAX as nat
            })),
    {
        if self.pending.len() > 0 {
            Some(self.first_at.saturating_add(self.max_wait_ms))
        } else {
            None
        }
    }
}

} // verus!
