//! The two ways of keeping probes in flight: one at a time (the sender waits
//! for each reply) or pipelined (the sender goes on at its own pace).
use crate::correlation::{completion, CorrelationError, CorrelationTable};
use vstd::prelude::*;

verus! {

#[derive(Debug, Clone, Copy, PartialEq, Eq, Structural)]
pub enum ProbeError {
    /// A probe is still waiting for its reply.
    Busy { seq: u64 },
    /// Every sequence number has been used.
    Exhausted,
    /// A probe payload must hold its 8-byte sequence number.
    PayloadTooSmall { size: usize },
    /// A reply too short to carry a sequence number.
    ShortReply { len: usize },
    /// A reply that matches no pending probe.
    Unmatched(CorrelationError),
}

/// What completing `seq` returns on a table holding `m`.
pub open spec fn matched<W>(m: Map<u64, W>, seq: u64) -> Result<W, ProbeError> {
    match completion(m, seq) {
        Ok(w) => Ok(w),
        Err(e) => Err(ProbeError::Unmatched(e)),
    }
}

/// One probe in flight at a time: a new probe is refused while the previous
/// one waits for its reply.
pub struct Sequential<W> {
    pending: CorrelationTable<W>,
    next_seq: u64,
}

impl<W> Sequential<W> {
    /// The waiters of the probes in flight.
    pub closed spec fn pending_spec(&self) -> Map<u64, W> {
        self.pending@
    }

    /// The sequence number of the next probe.
    pub closed spec fn next_seq_spec(&self) -> u64 {
        self.next_seq
    }

    pub open spec fn wf(&self) -> bool {
        &&& self.pending_spec().len() <= 1
        &&& self.pending_spec().dom().finite()
        &&& forall|k: u64| #[trigger]
            self.pending_spec().contains_key(k) ==> k + 1 == self.next_seq_spec()
    }

    /// Starts from an empty table; the first probe is numbered 0.
    pub fn new(pending: CorrelationTable<W>) -> (r: Self)
        requires
            pending@ == Map::<u64, W>::empty(),
        ensures
            r.wf(),
            r.pending_spec() == Map::<u64, W>::empty(),
            r.next_seq_spec() == 0,
    {
        Sequential { pending, next_seq: 0 }
    }

    /// The number of the pending probe, if any: always the last one issued.
    fn pending_seq(&self) -> (r: Option<u64>)
        requires
            self.wf(),
        ensures
            r is None <==> self.pending_spec().len() == 0,
            r matches Some(s) ==> self.pending_spec().contains_key(s),
    {
        if self.pending.is_empty() {
            return None;
        }
        proof {
            let k = self.pending_spec().dom().choose();
            assert(self.pending_spec().contains_key(k));
        }
        Some(self.next_seq - 1)
    }

    /// Registers the next probe with its waiter and returns its sequence number.
    pub fn issue(&mut self, waiter: W) -> (r: Result<u64, ProbeError>)
        requires
            old(self).wf(),
        ensures
            final(self).wf(),
            old(self).pending_spec().len() == 0 && old(self).next_seq_spec() < u64::MAX ==> r
                == Ok::<u64, ProbeError>(old(self).next_seq_spec()),
            old(self).pending_spec().len() == 0 && old(self).next_seq_spec() == u64::MAX ==> r
                == Err::<u64, ProbeError>(ProbeError::Exhausted),
            old(self).pending_spec().len() != 0 ==> (r matches Err(ProbeError::Busy { seq })
                && old(self).pending_spec().contains_key(seq)),
            r is Ok ==> final(self).pending_spec() == old(self).pending_spec().insert(
                old(self).next_seq_spec(),
                waiter,
            ) && final(self).next_seq_spec() == old(self).next_seq_spec() + 1,
            r is Err ==> final(self).pending_spec() == old(self).pending_spec()
                && final(self).next_seq_spec() == old(self).next_seq_spec(),
    {
        if let Some(seq) = self.pending_seq() {
            return Err(ProbeError::Busy { seq });
        }
        if self.next_seq == u64::MAX {
            return Err(ProbeError::Exhausted);
        }
        let seq = self.next_seq;
        self.pending.insert(seq, waiter);
        self.next_seq = seq + 1;
        Ok(seq)
    }

    /// A reply for probe `seq` arrived: hands back that probe's waiter.
    pub fn complete(&mut self, seq: u64) -> (r: Result<W, ProbeError>)
        requires
            old(self).wf(),
        ensures
            final(self).wf(),
            r == matched(old(self).pending_spec(), seq),
            final(self).pending_spec() == old(self).pending_spec().remove(seq),
            final(self).next_seq_spec() == old(self).next_seq_spec(),
    {
        match self.pending.complete(seq) {
            Ok(w) => Ok(w),
            Err(e) => Err(ProbeError::Unmatched(e)),
        }
    }
}

/// Probes pipelined at the sender's pace: every probe sent and not yet
/// answered stays pending.
pub struct Parallel<W> {
    pending: CorrelationTable<W>,
    sent: u64,
    received: u64,
    answered: Ghost<Set<u64>>,
}

impl<W> Parallel<W> {
    pub closed spec fn pending_spec(&self) -> Map<u64, W> {
        self.pending@
    }

    /// Probes sent so far; also the sequence number of the next one.
    pub closed spec fn sent_spec(&self) -> u64 {
        self.sent
    }

    /// Replies matched so far.
    pub closed spec fn received_spec(&self) -> u64 {
        self.received
    }

    /// The sequence numbers of the probes answered so far.
    pub closed spec fn answered_spec(&self) -> Set<u64> {
        self.answered@
    }

    pub open spec fn wf(&self) -> bool {
        &&& self.received_spec() <= self.sent_spec()
        &&& self.pending_spec().dom().finite()
        &&& self.answered_spec().finite()
        &&& self.answered_spec().len() == self.received_spec()
        &&& self.pending_spec().len() == self.sent_spec() - self.received_spec()
        &&& forall|k: u64| #[trigger]
            self.pending_spec().contains_key(k) <==> (k < self.sent_spec()
                && !self.answered_spec().contains(k))
        &&& forall|k: u64| #[trigger] self.answered_spec().contains(k) ==> k < self.sent_spec()
    }

    pub fn new(pending: CorrelationTable<W>) -> (r: Self)
        requires
            pending@ == Map::<u64, W>::empty(),
        ensures
            r.wf(),
            r.pending_spec() == Map::<u64, W>::empty(),
            r.sent_spec() == 0,
            r.received_spec() == 0,
            r.answered_spec() == Set::<u64>::empty(),
    {
        Parallel { pending, sent: 0, received: 0, answered: Ghost(Set::empty()) }
    }

    pub fn sent(&self) -> (r: u64)
        ensures
            r == self.sent_spec(),
    {
        self.sent
    }

    pub fn received(&self) -> (r: u64)
        ensures
            r == self.received_spec(),
    {
        self.received
    }

    pub fn pending_len(&self) -> (r: usize)
        ensures
            r == self.pending_spec().len(),
    {
        self.pending.len()
    }

    /// Registers the next probe with its waiter and returns its sequence number.
    pub fn issue(&mut self, waiter: W) -> (r: Result<u64, ProbeError>)
        requires
            old(self).wf(),
        ensures
            final(self).wf(),
            old(self).sent_spec() < u64::MAX ==> r == Ok::<u64, ProbeError>(old(self).sent_spec()),
            old(self).sent_spec() == u64::MAX ==> r == Err::<u64, ProbeError>(
                ProbeError::Exhausted,
            ),
            r is Ok ==> final(self).pending_spec() == old(self).pending_spec().insert(
                old(self).sent_spec(),
                waiter,
            ) && final(self).sent_spec() == old(self).sent_spec() + 1,
            r is Err ==> final(self).pending_spec() == old(self).pending_spec()
                && final(self).sent_spec() == old(self).sent_spec(),
            final(self).received_spec() == old(self).received_spec(),
            final(self).answered_spec() == old(self).answered_spec(),
    {
        if self.sent == u64::MAX {
            return Err(ProbeError::Exhausted);
        }
        let seq = self.sent;
        self.pending.insert(seq, waiter);
        self.sent = seq + 1;
        Ok(seq)
    }

    /// A reply for probe `seq` arrived: hands back that probe's waiter.
    pub fn complete(&mut self, seq: u64) -> (r: Result<W, ProbeError>)
        requires
            old(self).wf(),
        ensures
            final(self).wf(),
            r == matched(old(self).pending_spec(), seq),
            final(self).pending_spec() == old(self).pending_spec().remove(seq),
            final(self).sent_spec() == old(self).sent_spec(),
            final(self).received_spec() == old(self).received_spec() + if r is Ok {
                1int
            } else {
                0
            },
            final(self).answered_spec() == if r is Ok {
                old(self).answered_spec().insert(seq)
            } else {
                old(self).answered_spec()
            },
    {
        match self.pending.complete(seq) {
            Ok(w) => {
                self.received = self.received + 1;
                self.answered = Ghost(self.answered@.insert(seq));
                Ok(w)
            },
            Err(e) => Err(ProbeError::Unmatched(e)),
        }
    }
}

/// A call on a driver: issue the next probe with a waiter, or complete one.
pub enum DriverCall<W> {
    Issue(W),
    Complete(u64),
}

/// The sequence numbers completed successfully, in order, when `calls` are
/// made on a table holding `m` whose next probe is numbered `next`.
pub open spec fn completed_seqs<W>(m: Map<u64, W>, next: nat, calls: Seq<DriverCall<W>>) -> Seq<u64>
    decreases calls.len(),
{
    if calls.len() == 0 {
        Seq::empty()
    } else {
        let rest = calls.skip(1);
        match calls[0] {
            DriverCall::Issue(w) => completed_seqs(m.insert(next as u64, w), next + 1, rest),
            DriverCall::Complete(seq) => if m.contains_key(seq) {
                seq![seq] + completed_seqs(m.remove(seq), next, rest)
            } else {
                completed_seqs(m, next, rest)
            },
        }
    }
}

/// With sequence numbers handed out in increasing order, no sequence number is
/// completed twice, whatever the calls.
pub proof fn lemma_no_double_completion<W>(m: Map<u64, W>, next: nat, calls: Seq<DriverCall<W>>)
    requires
        next + calls.len() <= u64::MAX + 1,
        forall|k: u64| #[trigger] m.contains_key(k) ==> k < next,
    ensures
        completed_seqs(m, next, calls).no_duplicates(),
        forall|i: int|
            0 <= i < completed_seqs(m, next, calls).len() ==> m.contains_key(
                #[trigger] completed_seqs(m, next, calls)[i],
            ) || completed_seqs(m, next, calls)[i] >= next,
    decreases calls.len(),
{
    if calls.len() > 0 {
        let rest = calls.skip(1);
        match calls[0] {
            DriverCall::Issue(w) => {
                let m2 = m.insert(next as u64, w);
                lemma_no_double_completion(m2, next + 1, rest);
            },
            DriverCall::Complete(seq) => {
                if m.contains_key(seq) {
                    let m2 = m.remove(seq);
                    lemma_no_double_completion(m2, next, rest);
                    let tail = completed_seqs(m2, next, rest);
                    let all = seq![seq] + tail;
                    assert(forall|i: int| 0 <= i < tail.len() ==> tail[i] != seq);
                    assert forall|i: int, j: int|
                        0 <= i < all.len() && 0 <= j < all.len() && i != j implies all[i]
                        != all[j] by {
                        if i > 0 && j > 0 {
                            assert(all[i] == tail[i - 1] && all[j] == tail[j - 1]);
                        } else if i == 0 {
                            assert(all[j] == tail[j - 1]);
                        } else {
                            assert(all[i] == tail[i - 1]);
                        }
                    }
                    assert forall|i: int| 0 <= i < all.len() implies m.contains_key(#[trigger] all[i])
                        || all[i] >= next by {
                        if i > 0 {
                            assert(all[i] == tail[i - 1]);
                        }
                    }
                } else {
                    lemma_no_double_completion(m, next, rest);
                }
            },
        }
    }
}

/// In the one-at-a-time discipline the table never holds more than one entry.
pub proof fn lemma_sequential_bound<W>(d: Sequential<W>)
    requires
        d.wf(),
    ensures
        d.pending_spec().len() <= 1,
{
}

/// In the pipelined discipline, after `k` probes sent and `r` replies matched,
/// exactly `k - r` probes are pending: those sent and not answered.
pub proof fn lemma_parallel_accounting<W>(d: Parallel<W>)
    requires
        d.wf(),
    ensures
        d.pending_spec().len() == d.sent_spec() - d.received_spec(),
        d.answered_spec().len() == d.received_spec(),
        d.pending_spec().dom() == Set::new(|k: u64| k < d.sent_spec()).difference(
            d.answered_spec(),
        ),
{
    assert(d.pending_spec().dom() =~= Set::new(|k: u64| k < d.sent_spec()).difference(
        d.answered_spec(),
    ));
}

} // verus!
