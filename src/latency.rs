//! Round-trip latency probing with data messages: the sender stamps each probe
//! with its sequence number and the reply carries it back.
use crate::correlation::CorrelationTable;
use crate::discipline::{matched, Parallel, ProbeError, Sequential};
use crate::probe::{probe_bytes, probe_payload, probe_seq, u64_from_le, SEQ_BYTES};
use vstd::prelude::*;

verus! {

/// What a reply with `payload` yields on a table holding `m`: the probe's
/// number and waiter.
pub open spec fn reply_outcome<W>(m: Map<u64, W>, payload: Seq<u8>) -> Result<(u64, W), ProbeError> {
    if payload.len() < SEQ_BYTES {
        Err(ProbeError::ShortReply { len: payload.len() as usize })
    } else {
        let seq = u64_from_le(payload);
        match matched(m, seq) {
            Ok(w) => Ok((seq, w)),
            Err(e) => Err(e),
        }
    }
}

/// The sequence number that a reply with `payload` completes, if any.
pub open spec fn replied_seq(payload: Seq<u8>) -> Option<u64> {
    if payload.len() < SEQ_BYTES {
        None
    } else {
        Some(u64_from_le(payload))
    }
}

/// Latency probing with one probe in flight: the sender blocks until the
/// reply has released the probe's waiter.
pub struct LatencyPrimitivesSequential<W> {
    probes: Sequential<W>,
}

impl<W> LatencyPrimitivesSequential<W> {
    pub closed spec fn probes(&self) -> Sequential<W> {
        self.probes
    }

    pub open spec fn wf(&self) -> bool {
        self.probes().wf()
    }

    pub fn new(pending: CorrelationTable<W>) -> (r: Self)
        requires
            pending@ == Map::<u64, W>::empty(),
        ensures
            r.wf(),
            r.probes().pending_spec() == Map::<u64, W>::empty(),
            r.probes().next_seq_spec() == 0,
    {
        LatencyPrimitivesSequential { probes: Sequential::new(pending) }
    }

    /// Registers the next probe with `waiter` and builds its payload of `size`
    /// bytes.
    pub fn next_probe(&mut self, size: usize, waiter: W) -> (r: Result<(u64, Vec<u8>), ProbeError>)
        requires
            old(self).wf(),
        ensures
            final(self).wf(),
            size < SEQ_BYTES ==> r == Err::<(u64, Vec<u8>), ProbeError>(
                ProbeError::PayloadTooSmall { size },
            ) && final(self).probes() == old(self).probes(),
            size >= SEQ_BYTES && old(self).probes().pending_spec().len() == 0
                && old(self).probes().next_seq_spec() < u64::MAX ==> (r matches Ok((seq, p))
                && seq == old(self).probes().next_seq_spec() && p@ == probe_bytes(
                seq,
                size as nat,
            )),
            size >= SEQ_BYTES && old(self).probes().pending_spec().len() == 0
                && old(self).probes().next_seq_spec() == u64::MAX ==> r == Err::<
                (u64, Vec<u8>),
                ProbeError,
            >(ProbeError::Exhausted),
            size >= SEQ_BYTES && old(self).probes().pending_spec().len() != 0 ==> r matches Err(
                ProbeError::Busy { .. },
            ),
            r is Ok ==> final(self).probes().pending_spec() == old(
                self,
            ).probes().pending_spec().insert(old(self).probes().next_seq_spec(), waiter)
                && final(self).probes().next_seq_spec() == old(self).probes().next_seq_spec() + 1,
            r is Err ==> final(self).probes().pending_spec() == old(self).probes().pending_spec()
                && final(self).probes().next_seq_spec() == old(self).probes().next_seq_spec(),
    {
        if size < SEQ_BYTES {
            return Err(ProbeError::PayloadTooSmall { size });
        }
        let seq = self.probes.issue(waiter)?;
        match probe_payload(seq, size) {
            Some(p) => Ok((seq, p)),
            None => Err(ProbeError::PayloadTooSmall { size }),
        }
    }

    /// A reply arrived with `payload`: hands back the number and the waiter of
    /// the probe it answers, whose entry is removed.
    pub fn send_data(&mut self, payload: &[u8]) -> (r: Result<(u64, W), ProbeError>)
        requires
            old(self).wf(),
        ensures
            final(self).wf(),
            r == reply_outcome(old(self).probes().pending_spec(), payload@),
            final(self).probes().pending_spec() == match replied_seq(payload@) {
                Some(seq) => old(self).probes().pending_spec().remove(seq),
                None => old(self).probes().pending_spec(),
            },
            final(self).probes().next_seq_spec() == old(self).probes().next_seq_spec(),
    {
        match probe_seq(payload) {
            None => Err(ProbeError::ShortReply { len: payload.len() }),
            Some(seq) => match self.probes.complete(seq) {
                Ok(w) => Ok((seq, w)),
                Err(e) => Err(e),
            },
        }
    }
}

/// Latency probing with probes pipelined at a fixed interval; each reply
/// releases the time its probe was sent.
pub struct LatencyPrimitivesParallel<W> {
    scenario: String,
    name: String,
    interval_us: u64,
    probes: Parallel<W>,
}

impl<W> LatencyPrimitivesParallel<W> {
    pub closed spec fn probes(&self) -> Parallel<W> {
        self.probes
    }

    pub closed spec fn scenario_spec(&self) -> Seq<char> {
        self.scenario@
    }

    pub closed spec fn name_spec(&self) -> Seq<char> {
        self.name@
    }

    pub closed spec fn interval_us_spec(&self) -> u64 {
        self.interval_us
    }

    pub open spec fn wf(&self) -> bool {
        self.probes().wf()
    }

    /// `interval_us` is the pause between two probes, in microseconds.
    pub fn new(scenario: String, name: String, interval_us: u64, pending: CorrelationTable<W>) -> (r:
        Self)
        requires
            pending@ == Map::<u64, W>::empty(),
        ensures
            r.wf(),
            r.probes().pending_spec() == Map::<u64, W>::empty(),
            r.probes().sent_spec() == 0,
            r.probes().received_spec() == 0,
            r.scenario_spec() == scenario@,
            r.name_spec() == name@,
            r.interval_us_spec() == interval_us,
    {
        LatencyPrimitivesParallel { scenario, name, interval_us, probes: Parallel::new(pending) }
    }

    pub fn scenario(&self) -> (r: &String)
        ensures
            r@ == self.scenario_spec(),
    {
        &self.scenario
    }

    pub fn name(&self) -> (r: &String)
        ensures
            r@ == self.name_spec(),
    {
        &self.name
    }

    pub fn interval_us(&self) -> (r: u64)
        ensures
            r == self.interval_us_spec(),
    {
        self.interval_us
    }

    /// Number of probes sent and not answered yet.
    pub fn pending_len(&self) -> (r: usize)
        ensures
            r == self.probes().pending_spec().len(),
    {
        self.probes.pending_len()
    }

    /// Registers the next probe with `waiter` and builds its payload of `size`
    /// bytes.
    pub fn next_probe(&mut self, size: usize, waiter: W) -> (r: Result<(u64, Vec<u8>), ProbeError>)
        requires
            old(self).wf(),
        ensures
            final(self).wf(),
            size < SEQ_BYTES ==> r == Err::<(u64, Vec<u8>), ProbeError>(
                ProbeError::PayloadTooSmall { size },
            ) && final(self).probes() == old(self).probes(),
            size >= SEQ_BYTES && old(self).probes().sent_spec() < u64::MAX ==> (r matches Ok(
                (seq, p),
            ) && seq == old(self).probes().sent_spec() && p@ == probe_bytes(seq, size as nat)),
            size >= SEQ_BYTES && old(self).probes().sent_spec() == u64::MAX ==> r == Err::<
                (u64, Vec<u8>),
                ProbeError,
            >(ProbeError::Exhausted),
            r is Ok ==> final(self).probes().pending_spec() == old(
                self,
            ).probes().pending_spec().insert(old(self).probes().sent_spec(), waiter)
                && final(self).probes().sent_spec() == old(self).probes().sent_spec() + 1,
            r is Err ==> final(self).probes().pending_spec() == old(self).probes().pending_spec()
                && final(self).probes().sent_spec() == old(self).probes().sent_spec(),
            final(self).probes().received_spec() == old(self).probes().received_spec(),
            final(self).probes().answered_spec() == old(self).probes().answered_spec(),
            final(self).scenario_spec() == old(self).scenario_spec(),
            final(self).name_spec() == old(self).name_spec(),
            final(self).interval_us_spec() == old(self).interval_us_spec(),
    {
        if size < SEQ_BYTES {
            return Err(ProbeError::PayloadTooSmall { size });
        }
        let seq = self.probes.issue(waiter)?;
        match probe_payload(seq, size) {
            Some(p) => Ok((seq, p)),
            None => Err(ProbeError::PayloadTooSmall { size }),
        }
    }

    /// A reply arrived with `payload`: hands back the number and the waiter of
    /// the probe it answers, whose entry is removed.
    pub fn send_data(&mut self, payload: &[u8]) -> (r: Result<(u64, W), ProbeError>)
        requires
            old(self).wf(),
        ensures
            final(self).wf(),
            r == reply_outcome(old(self).probes().pending_spec(), payload@),
            final(self).probes().pending_spec() == match replied_seq(payload@) {
                Some(seq) => old(self).probes().pending_spec().remove(seq),
                None => old(self).probes().pending_spec(),
            },
            final(self).probes().sent_spec() == old(self).probes().sent_spec(),
            final(self).probes().received_spec() == old(self).probes().received_spec() + if r is Ok {
                1int
            } else {
                0
            },
            final(self).probes().answered_spec() == match r {
                Ok((seq, _)) => old(self).probes().answered_spec().insert(seq),
                Err(_) => old(self).probes().answered_spec(),
            },
            final(self).scenario_spec() == old(self).scenario_spec(),
            final(self).name_spec() == old(self).name_spec(),
            final(self).interval_us_spec() == old(self).interval_us_spec(),
    {
        match probe_seq(payload) {
            None => Err(ProbeError::ShortReply { len: payload.len() }),
            Some(seq) => match self.probes.complete(seq) {
                Ok(w) => Ok((seq, w)),
                Err(e) => Err(e),
            },
        }
    }
}

} // verus!
