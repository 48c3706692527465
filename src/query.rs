//! Query latency: one query in flight, identified by its query id, whose
//! reply releases the waiter registered when it was sent.
use crate::correlation::CorrelationTable;
use crate::discipline::{matched, ProbeError, Sequential};
use vstd::prelude::*;

verus! {

/// Reply handling for the query latency benchmark.
pub struct QueryPrimitives<W> {
    scenario: String,
    name: String,
    queries: Sequential<W>,
}

impl<W> QueryPrimitives<W> {
    pub closed spec fn queries(&self) -> Sequential<W> {
        self.queries
    }

    pub closed spec fn scenario_spec(&self) -> Seq<char> {
        self.scenario@
    }

    pub closed spec fn name_spec(&self) -> Seq<char> {
        self.name@
    }

    pub open spec fn wf(&self) -> bool {
        self.queries().wf()
    }

    pub fn new(scenario: String, name: String, pending: CorrelationTable<W>) -> (r: Self)
        requires
            pending@ == Map::<u64, W>::empty(),
        ensures
            r.wf(),
            r.queries().pending_spec() == Map::<u64, W>::empty(),
            r.queries().next_seq_spec() == 0,
            r.scenario_spec() == scenario@,
            r.name_spec() == name@,
    {
        QueryPrimitives { scenario, name, queries: Sequential::new(pending) }
    }

    pub fn scenario(&self) -> (r: &String)
        ensures
            r@ == self.scenario_spec(),
    {
        &self.scenario
    }

    pub fn name(&self) -> (r: &String)
        ensures
            r@ == self.name_spec(),
    {
        &self.name
    }

    /// Registers the next query with `waiter` and returns its query id.
    pub fn send_query(&mut self, waiter: W) -> (r: Result<u64, ProbeError>)
        requires
            old(self).wf(),
        ensures
            final(self).wf(),
            old(self).queries().pending_spec().len() == 0 && old(self).queries().next_seq_spec()
                < u64::MAX ==> r == Ok::<u64, ProbeError>(old(self).queries().next_seq_spec()),
            old(self).queries().pending_spec().len() == 0 && old(self).queries().next_seq_spec()
                == u64::MAX ==> r == Err::<u64, ProbeError>(ProbeError::Exhausted),
            old(self).queries().pending_spec().len() != 0 ==> r matches Err(
                ProbeError::Busy { .. },
            ),
            r is Ok ==> final(self).queries().pending_spec() == old(
                self,
            ).queries().pending_spec().insert(old(self).queries().next_seq_spec(), waiter)
                && final(self).queries().next_seq_spec() == old(self).queries().next_seq_spec() + 1,
            r is Err ==> final(self).queries().pending_spec() == old(self).queries().pending_spec()
                && final(self).queries().next_seq_spec() == old(self).queries().next_seq_spec(),
            final(self).scenario_spec() == old(self).scenario_spec(),
            final(self).name_spec() == old(self).name_spec(),
    {
        self.queries.issue(waiter)
    }

    /// The reply to query `qid` arrived: hands back its waiter.
    pub fn send_reply_data(&mut self, qid: u64) -> (r: Result<W, ProbeError>)
        requires
            old(self).wf(),
        ensures
            final(self).wf(),
            r == matched(old(self).queries().pending_spec(), qid),
            final(self).queries().pending_spec() == old(self).queries().pending_spec().remove(qid),
            final(self).queries().next_seq_spec() == old(self).queries().next_seq_spec(),
            final(self).scenario_spec() == old(self).scenario_spec(),
            final(self).name_spec() == old(self).name_spec(),
    {
        self.queries.complete(qid)
    }
}

} // verus!
