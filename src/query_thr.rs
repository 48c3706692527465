//! Query throughput: queries sent back to back, one in flight, each reply
//! releasing the waiter of its query; rates come from the aggregator.
use crate::correlation::CorrelationTable;
use crate::discipline::{matched, ProbeError, Sequential};
use vstd::prelude::*;

verus! {

/// Reply handling for the query throughput benchmark.
pub struct QueryPrimitives<W> {
    queries: Sequential<W>,
}

impl<W> QueryPrimitives<W> {
    pub closed spec fn queries(&self) -> Sequential<W> {
        self.queries
    }

    pub open spec fn wf(&self) -> bool {
        self.queries().wf()
    }

    pub fn new(pending: CorrelationTable<W>) -> (r: Self)
        requires
            pending@ == Map::<u64, W>::empty(),
        ensures
            r.wf(),
            r.queries().pending_spec() == Map::<u64, W>::empty(),
            r.queries().next_seq_spec() == 0,
    {
        QueryPrimitives { queries: Sequential::new(pending) }
    }

    /// Registers the next query with `waiter` and returns its query id.
    pub fn send_query(&mut self, waiter: W) -> (r: Result<u64, ProbeError>)
        requires
            old(self).wf(),
        ensures
            final(self).wf(),
            old(self).queries().pending_spec().len() == 0 && old(self).queries().next_seq_spec()
                < u64::MAX ==> r == Ok::<u64, ProbeError>(old(self).queries().next_seq_spec()),
            old(self).queries().pending_spec().len() == 0 && old(self).queries().next_seq_spec()
                == u64::MAX ==> r == Err::<u64, ProbeError>(ProbeError::Exhausted),
            old(self).queries().pending_spec().len() != 0 ==> r matches Err(
                ProbeError::Busy { .. },
            ),
            r is Ok ==> final(self).queries().pending_spec() == old(
                self,
            ).queries().pending_spec().insert(old(self).queries().next_seq_spec(), waiter)
                && final(self).queries().next_seq_spec() == old(self).queries().next_seq_spec() + 1,
            r is Err ==> final(self).queries().pending_spec() == old(self).queries().pending_spec()
                && final(self).queries().next_seq_spec() == old(self).queries().next_seq_spec(),
    {
        self.queries.issue(waiter)
    }

    /// The reply to query `qid` arrived: hands back its waiter.
    pub fn send_reply_data(&mut self, qid: u64) -> (r: Result<W, ProbeError>)
        requires
            old(self).wf(),
        ensures
            final(self).wf(),
            r == matched(old(self).queries().pending_spec(), qid),
            final(self).queries().pending_spec() == old(self).queries().pending_spec().remove(qid),
            final(self).queries().next_seq_spec() == old(self).queries().next_seq_spec(),
    {
        self.queries.complete(qid)
    }
}

} // verus!
