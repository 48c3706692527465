use zbench::correlation::{CorrelationError, CorrelationTable};
use zbench::discipline::{Parallel, ProbeError, Sequential};
use zbench::latency::{LatencyPrimitivesParallel, LatencyPrimitivesSequential};
use zbench::probe::{probe_payload, probe_seq};
use zbench::query;
use zbench::query_thr;

#[test]
fn probe_payload_layout() {
    let p = probe_payload(0x0102030405060708, 12).unwrap();
    assert_eq!(p, vec![8, 7, 6, 5, 4, 3, 2, 1, 0, 0, 0, 0]);
    assert_eq!(probe_seq(&p), Some(0x0102030405060708));
    assert_eq!(probe_payload(1, 7), None);
    assert_eq!(probe_payload(1, 8), Some(vec![1, 0, 0, 0, 0, 0, 0, 0]));
    assert_eq!(probe_seq(&[1, 2, 3]), None);
}

#[test]
fn sequential_keeps_one_probe() {
    let mut s = LatencyPrimitivesSequential::new(CorrelationTable::new());
    let (seq, p) = s.next_probe(64, "first").unwrap();
    assert_eq!(seq, 0);
    assert_eq!(p.len(), 64);
    assert_eq!(s.next_probe(64, "second"), Err(ProbeError::Busy { seq: 0 }));
    assert_eq!(s.send_data(&p), Ok((0, "first")));
    let (seq, p) = s.next_probe(64, "second").unwrap();
    assert_eq!(seq, 1);
    assert_eq!(s.send_data(&p), Ok((1, "second")));
    assert_eq!(
        s.send_data(&p),
        Err(ProbeError::Unmatched(CorrelationError::Missing { seq: 1 }))
    );
}

#[test]
fn sequential_refuses_small_payload() {
    let mut s: LatencyPrimitivesSequential<u8> = LatencyPrimitivesSequential::new(CorrelationTable::new());
    assert_eq!(s.next_probe(4, 0), Err(ProbeError::PayloadTooSmall { size: 4 }));
    assert_eq!(s.send_data(&[1, 2]), Err(ProbeError::ShortReply { len: 2 }));
}

#[test]
fn parallel_accounting() {
    let mut p = LatencyPrimitivesParallel::new(
        "sc".to_string(),
        "nm".to_string(),
        1000,
        CorrelationTable::new(),
    );
    let mut payloads = vec![];
    for i in 0..5u64 {
        let (seq, pl) = p.next_probe(16, i * 10).unwrap();
        assert_eq!(seq, i);
        payloads.push(pl);
    }
    assert_eq!(p.pending_len(), 5);
    assert_eq!(p.send_data(&payloads[3]), Ok((3, 30)));
    assert_eq!(p.send_data(&payloads[0]), Ok((0, 0)));
    assert_eq!(p.pending_len(), 3);
    assert_eq!(p.scenario(), "sc");
    assert_eq!(p.name(), "nm");
    assert_eq!(p.interval_us(), 1000);
}

#[test]
fn discipline_cores() {
    let mut s = Sequential::new(CorrelationTable::new());
    assert_eq!(s.issue('a'), Ok(0));
    assert_eq!(s.issue('b'), Err(ProbeError::Busy { seq: 0 }));
    assert_eq!(s.complete(0), Ok('a'));
    assert_eq!(s.issue('b'), Ok(1));
    let mut p = Parallel::new(CorrelationTable::new());
    assert_eq!(p.issue(1), Ok(0));
    assert_eq!(p.issue(2), Ok(1));
    assert_eq!(p.issue(3), Ok(2));
    assert_eq!(p.complete(1), Ok(2));
    assert_eq!(p.complete(9), Err(ProbeError::Unmatched(CorrelationError::Missing { seq: 9 })));
    assert_eq!(p.sent(), 3);
    assert_eq!(p.received(), 1);
    assert_eq!(p.pending_len(), 2);
}

#[test]
fn query_latency_round() {
    let mut q = query::QueryPrimitives::new("s".to_string(), "n".to_string(), CorrelationTable::new());
    assert_eq!(q.send_query((5u64, 'w')), Ok(0));
    assert_eq!(q.send_query((6u64, 'x')), Err(ProbeError::Busy { seq: 0 }));
    assert_eq!(q.send_reply_data(0), Ok((5, 'w')));
    assert_eq!(q.send_query((7u64, 'y')), Ok(1));
    assert_eq!(q.scenario(), "s");
    assert_eq!(q.name(), "n");
}

#[test]
fn query_throughput_round() {
    let mut q = query_thr::QueryPrimitives::new(CorrelationTable::new());
    assert_eq!(q.send_query("b0"), Ok(0));
    assert_eq!(q.send_reply_data(1), Err(ProbeError::Unmatched(CorrelationError::Missing { seq: 1 })));
    assert_eq!(q.send_reply_data(0), Ok("b0"));
    assert_eq!(q.send_query("b1"), Ok(1));
}

#[test]
fn parallel_pending_are_the_unanswered() {
    let mut p = Parallel::new(CorrelationTable::new());
    for i in 0..4u32 {
        assert_eq!(p.issue(i), Ok(i as u64));
    }
    assert_eq!(p.complete(2), Ok(2));
    assert_eq!(p.complete(0), Ok(0));
    assert_eq!(p.complete(2), Err(ProbeError::Unmatched(CorrelationError::Missing { seq: 2 })));
    assert_eq!(p.pending_len(), 2);
    assert_eq!(p.complete(1), Ok(1));
    assert_eq!(p.complete(3), Ok(3));
    assert_eq!(p.pending_len(), 0);
}
