//! A byte budget for reading untrusted input.
use vstd::prelude::*;

verus! {

/// A reader with a budget: once `limit` bytes have been read through it, it
/// reads nothing more.
pub struct LimitedReader<R> {
    /// The reader read from.
    pub inner: R,
    /// The budget, in bytes.
    pub limit: usize,
    /// How many bytes have been read so far.
    pub total_read: usize,
}

impl<R> LimitedReader<R> {
    /// The budget.
    pub open spec fn limit(&self) -> nat {
        self.limit as nat
    }

    /// How many bytes have been read so far.
    pub open spec fn total_read(&self) -> nat {
        self.total_read as nat
    }

    /// Never more has been read than the budget allows.
    pub open spec fn wf(&self) -> bool {
        self.total_read <= self.limit
    }

    /// A reader over `inner` that reads at most `limit` bytes.
    pub fn new(inner: R, limit: usize) -> (r: Self)
        ensures
            r.wf(),
            r.inner == inner,
            r.limit() == limit,
            r.total_read() == 0,
    {
        LimitedReader { inner, limit, total_read: 0 }
    }

    /// How many bytes the next read into a buffer of `buf_len` bytes may take:
    /// none once the budget is spent, else as many as fit in both.
    pub fn allowance(&self, buf_len: usize) -> (r: usize)
        requires
            self.wf(),
        ensures
            r == if buf_len < self.limit() - self.total_read() {
                buf_len as int
            } else {
                self.limit() - self.total_read()
            },
    {
        let remaining = self.limit - self.total_read;
        if buf_len < remaining {
            buf_len
        } else {
            remaining
        }
    }

    /// Records that a read took `n` bytes, at most what was allowed.
    pub fn record(&mut self, n: usize)
        requires
            old(self).wf(),
            n <= old(self).limit() - old(self).total_read(),
        ensures
            final(self).wf(),
            final(self).inner == old(self).inner,
            final(self).limit() == old(self).limit(),
            final(self).total_read() == old(self).total_read() + n,
    {
        self.total_read = self.total_read + n;
    }
}

} // verus!
