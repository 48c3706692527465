//! Per-window counters of messages, bytes and round-trip times, turned into
//! rates and a mean at the end of each reporting window.
use vstd::prelude::*;

verus! {

/// Microseconds in a second.
pub const MICROS_PER_SEC: u64 = 1_000_000;

/// Sum of the recorded values.
pub open spec fn sum(s: Seq<u64>) -> nat
    decreases s.len(),
{
    if s.len() == 0 {
        0
    } else {
        (sum(s.drop_last()) + s.last()) as nat
    }
}

/// Events per second, rounded down, for `count` events in `elapsed_us` microseconds.
pub open spec fn rate(count: nat, elapsed_us: nat) -> nat
    recommends
        elapsed_us > 0,
{
    count * 1_000_000 / elapsed_us
}

/// Arithmetic mean, rounded down, of the recorded round-trip times.
pub open spec fn mean(s: Seq<u64>) -> Option<nat> {
    if s.len() == 0 {
        None
    } else {
        Some(sum(s) / s.len())
    }
}

/// The figures of one reporting window.
#[derive(Debug, Clone, Copy, PartialEq, Eq)]
pub struct Report {
    pub messages: u64,
    pub bytes: u64,
    /// Messages per second.
    pub message_rate: u128,
    /// Bytes per second.
    pub byte_rate: u128,
    /// Mean round-trip time in microseconds, when any was recorded.
    pub mean_rtt_us: Option<u64>,
}

/// Counters of the current reporting window.
pub struct Aggregator {
    messages: u64,
    bytes: u64,
    rtt_sum: u64,
    rtt_count: u64,
    latencies: Ghost<Seq<u64>>,
}

impl Aggregator {
    /// Messages recorded in this window.
    pub closed spec fn messages_spec(&self) -> nat {
        self.messages as nat
    }

    /// Bytes recorded in this window.
    pub closed spec fn bytes_spec(&self) -> nat {
        self.bytes as nat
    }

    /// Round-trip times recorded in this window, in order.
    pub closed spec fn latencies_spec(&self) -> Seq<u64> {
        self.latencies@
    }

    pub closed spec fn wf(&self) -> bool {
        &&& self.rtt_count == self.latencies@.len()
        &&& self.rtt_sum == sum(self.latencies@)
        &&& self.latencies@.len() <= self.messages
    }

    /// The report that `take_report` gives for a window of `elapsed_us`.
    pub open spec fn report_spec(&self, elapsed_us: nat) -> Option<Report> {
        if self.messages_spec() == 0 && self.bytes_spec() == 0 {
            None
        } else {
            Some(
                Report {
                    messages: self.messages_spec() as u64,
                    bytes: self.bytes_spec() as u64,
                    message_rate: rate(self.messages_spec(), elapsed_us) as u128,
                    byte_rate: rate(self.bytes_spec(), elapsed_us) as u128,
                    mean_rtt_us: match mean(self.latencies_spec()) {
                        Some(m) => Some(m as u64),
                        None => None,
                    },
                },
            )
        }
    }

    pub fn new() -> (r: Self)
        ensures
            r.wf(),
            r.messages_spec() == 0,
            r.bytes_spec() == 0,
            r.latencies_spec() == Seq::<u64>::empty(),
    {
        Aggregator { messages: 0, bytes: 0, rtt_sum: 0, rtt_count: 0, latencies: Ghost(Seq::empty()) }
    }

    /// Counts one message. `false`, and nothing counted, when the counter is full.
    pub fn record_message(&mut self) -> (r: bool)
        requires
            old(self).wf(),
        ensures
            final(self).wf(),
            r == (old(self).messages_spec() < u64::MAX),
            final(self).messages_spec() == old(self).messages_spec() + if r {
                1nat
            } else {
                0
            },
            final(self).bytes_spec() == old(self).bytes_spec(),
            final(self).latencies_spec() == old(self).latencies_spec(),
    {
        if self.messages == u64::MAX {
            return false;
        }
        self.messages = self.messages + 1;
        true
    }

    /// Counts `n` bytes. `false`, and nothing counted, when the counter would overflow.
    pub fn record_bytes(&mut self, n: u64) -> (r: bool)
        requires
            old(self).wf(),
        ensures
            final(self).wf(),
            r == (old(self).bytes_spec() + n <= u64::MAX),
            final(self).bytes_spec() == old(self).bytes_spec() + if r {
                n as nat
            } else {
                0
            },
            final(self).messages_spec() == old(self).messages_spec(),
            final(self).latencies_spec() == old(self).latencies_spec(),
    {
        if n > u64::MAX - self.bytes {
            return false;
        }
        self.bytes = self.bytes + n;
        true
    }

    /// Counts one message answered after `rtt_us` microseconds. `false`, and
    /// nothing counted, when a counter would overflow.
    pub fn record_rtt(&mut self, rtt_us: u64) -> (r: bool)
        requires
            old(self).wf(),
        ensures
            final(self).wf(),
            r == (old(self).messages_spec() < u64::MAX && sum(old(self).latencies_spec()) + rtt_us
                <= u64::MAX),
            r ==> final(self).messages_spec() == old(self).messages_spec() + 1
                && final(self).latencies_spec() == old(self).latencies_spec().push(rtt_us),
            !r ==> final(self).messages_spec() == old(self).messages_spec()
                && final(self).latencies_spec() == old(self).latencies_spec(),
            final(self).bytes_spec() == old(self).bytes_spec(),
    {
        if self.messages == u64::MAX || rtt_us > u64::MAX - self.rtt_sum {
            return false;
        }
        proof {
            let s = self.latencies@.push(rtt_us);
            assert(s.drop_last() =~= self.latencies@);
        }
        self.messages = self.messages + 1;
        self.rtt_sum = self.rtt_sum + rtt_us;
        self.rtt_count = self.rtt_count + 1;
        self.latencies = Ghost(self.latencies@.push(rtt_us));
        true
    }

    /// Ends the window: gives its report, if anything was recorded, and starts
    /// the next window from zero.
    pub fn take_report(&mut self, elapsed_us: u64) -> (r: Option<Report>)
        requires
            old(self).wf(),
            elapsed_us > 0,
        ensures
            final(self).wf(),
            r == old(self).report_spec(elapsed_us as nat),
            r matches Some(rep) ==> rep.messages as nat == old(self).messages_spec()
                && rep.bytes as nat == old(self).bytes_spec(),
            final(self).messages_spec() == 0,
            final(self).bytes_spec() == 0,
            final(self).latencies_spec() == Seq::<u64>::empty(),
    {
        let messages = self.messages;
        let bytes = self.bytes;
        let rtt_sum = self.rtt_sum;
        let rtt_count = self.rtt_count;
        self.messages = 0;
        self.bytes = 0;
        self.rtt_sum = 0;
        self.rtt_count = 0;
        self.latencies = Ghost(Seq::empty());
        if messages == 0 && bytes == 0 {
            return None;
        }
        let message_rate = (messages as u128) * 1_000_000 / (elapsed_us as u128);
        let byte_rate = (bytes as u128) * 1_000_000 / (elapsed_us as u128);
        let mean_rtt_us = if rtt_count == 0 {
            None
        } else {
            Some(rtt_sum / rtt_count)
        };
        proof {
            lemma_rate_bounded(messages as nat, elapsed_us as nat);
            lemma_rate_bounded(bytes as nat, elapsed_us as nat);
        }
        Some(Report { messages, bytes, message_rate, byte_rate, mean_rtt_us })
    }
}

/// The counts of a window fit the 64-bit fields of its report.
pub proof fn lemma_counts_fit(a: &Aggregator)
    requires
        a.wf(),
    ensures
        a.messages_spec() <= u64::MAX,
        a.bytes_spec() <= u64::MAX,
        a.latencies_spec().len() <= a.messages_spec(),
{
}

proof fn lemma_rate_bounded(count: nat, elapsed_us: nat)
    requires
        elapsed_us > 0,
    ensures
        rate(count, elapsed_us) <= count * 1_000_000,
{
    assert(count * 1_000_000 / elapsed_us <= count * 1_000_000) by (nonlinear_arith)
        requires
            elapsed_us > 0,
    ;
}

/// Over a window of exactly one second the rate is the number of events, and
/// the mean round-trip time is the arithmetic mean of the recorded times.
pub proof fn lemma_rate_math(n: nat, latencies: Seq<u64>)
    requires
        latencies.len() > 0,
    ensures
        rate(n, MICROS_PER_SEC as nat) == n,
        mean(latencies) == Some(sum(latencies) / latencies.len()),
{
    assert(n * 1_000_000 / 1_000_000 == n) by (nonlinear_arith);
}

} // verus!
