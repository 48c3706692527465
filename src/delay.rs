//! One-way delay probes: the sequence number and the sender's clock, in
//! nanoseconds, at the head of the payload; the receiver subtracts.
use crate::probe::{le64, u64_from_le, lemma_le64_round_trip};
use vstd::prelude::*;

verus! {

/// Bytes at the head of a delay probe: an 8-byte sequence number, then a
/// 16-byte timestamp, both little-endian.
pub const DELAY_HEADER: usize = 24;

/// The 16 little-endian bytes of `x`.
pub open spec fn le128(x: u128) -> Seq<u8> {
    le64(x as u64) + le64((x >> 64u128) as u64)
}

/// The number whose 16 little-endian bytes start `b`.
pub open spec fn u128_from_le(b: Seq<u8>) -> u128 {
    (u64_from_le(b) as u128) | ((u64_from_le(b.skip(8)) as u128) << 64u128)
}

/// The payload of delay probe `seq` sent at `sent_ns`, `size` bytes long.
pub open spec fn delay_bytes(seq: u64, sent_ns: u128, size: nat) -> Seq<u8> {
    le64(seq) + le128(sent_ns) + Seq::new((size - 24) as nat, |_i: int| 0u8)
}

/// What a receiver reads from a delay probe received at `now_ns`: the
/// sequence number and the delay, `None` for a short payload or a timestamp
/// later than `now_ns`.
pub open spec fn delay_reading(payload: Seq<u8>, now_ns: u128) -> Option<(u64, u128)> {
    if payload.len() < 24 {
        None
    } else {
        let sent = u128_from_le(payload.skip(8));
        if sent > now_ns {
            None
        } else {
            Some((u64_from_le(payload), (now_ns - sent) as u128))
        }
    }
}

fn push_u64(out: &mut Vec<u8>, x: u64)
    ensures
        final(out)@ == old(out)@ + le64(x),
{
    out.push(x as u8);
    out.push((x >> 8) as u8);
    out.push((x >> 16) as u8);
    out.push((x >> 24) as u8);
    out.push((x >> 32) as u8);
    out.push((x >> 40) as u8);
    out.push((x >> 48) as u8);
    out.push((x >> 56) as u8);
    proof {
        assert(final(out)@ =~= old(out)@ + le64(x));
    }
}

fn read_u64(b: &[u8], at: usize) -> (r: u64)
    requires
        at + 8 <= b@.len(),
    ensures
        r == u64_from_le(b@.skip(at as int)),
{
    (b[at] as u64) | ((b[at + 1] as u64) << 8) | ((b[at + 2] as u64) << 16) | ((b[at + 3] as u64)
        << 24) | ((b[at + 4] as u64) << 32) | ((b[at + 5] as u64) << 40) | ((b[at + 6] as u64)
        << 48) | ((b[at + 7] as u64) << 56)
}

/// Builds delay probe `seq` stamped with `sent_ns`, `size` bytes long.
pub fn delay_payload(seq: u64, sent_ns: u128, size: usize) -> (r: Option<Vec<u8>>)
    ensures
        size >= DELAY_HEADER ==> (r matches Some(p) && p@ == delay_bytes(seq, sent_ns, size as nat)),
        size < DELAY_HEADER ==> r is None,
{
    if size < DELAY_HEADER {
        return None;
    }
    let mut out: Vec<u8> = Vec::with_capacity(size);
    push_u64(&mut out, seq);
    push_u64(&mut out, sent_ns as u64);
    push_u64(&mut out, (sent_ns >> 64u128) as u64);
    proof {
        assert(out@ =~= le64(seq) + le128(sent_ns));
    }
    let mut i: usize = DELAY_HEADER;
    while i < size
        invariant
            DELAY_HEADER <= i <= size,
            out@ == le64(seq) + le128(sent_ns) + Seq::new((i - 24) as nat, |_j: int| 0u8),
        decreases size - i,
    {
        out.push(0u8);
        i = i + 1;
        proof {
            assert(out@ =~= le64(seq) + le128(sent_ns) + Seq::new((i - 24) as nat, |_j: int| 0u8));
        }
    }
    Some(out)
}

/// Reads a delay probe received at `now_ns`.
pub fn read_delay(payload: &[u8], now_ns: u128) -> (r: Option<(u64, u128)>)
    ensures
        r == delay_reading(payload@, now_ns),
{
    if payload.len() < DELAY_HEADER {
        return None;
    }
    let seq = read_u64(payload, 0);
    let lo = read_u64(payload, 8);
    let hi = read_u64(payload, 16);
    let sent = (lo as u128) | ((hi as u128) << 64u128);
    proof {
        assert(payload@.skip(0) =~= payload@);
        assert(payload@.skip(8).skip(8) =~= payload@.skip(16));
    }
    if sent > now_ns {
        None
    } else {
        Some((seq, now_ns - sent))
    }
}

/// A receiver reads back the sequence number and the elapsed time of a probe
/// sent at `sent_ns` and received at `now_ns`.
pub proof fn lemma_delay_round_trip(seq: u64, sent_ns: u128, now_ns: u128, size: nat)
    requires
        size >= 24,
        sent_ns <= now_ns,
    ensures
        delay_bytes(seq, sent_ns, size).len() == size,
        delay_reading(delay_bytes(seq, sent_ns, size), now_ns) == Some((seq, (now_ns - sent_ns) as u128)),
{
    let zeros = Seq::new((size - 24) as nat, |_i: int| 0u8);
    let p = delay_bytes(seq, sent_ns, size);
    assert(p =~= le64(seq) + (le128(sent_ns) + zeros));
    lemma_le64_round_trip(seq, le128(sent_ns) + zeros);
    let q = p.skip(8);
    assert(q =~= le64(sent_ns as u64) + (le64((sent_ns >> 64u128) as u64) + zeros));
    lemma_le64_round_trip(sent_ns as u64, le64((sent_ns >> 64u128) as u64) + zeros);
    assert(q.skip(8) =~= le64((sent_ns >> 64u128) as u64) + zeros);
    lemma_le64_round_trip((sent_ns >> 64u128) as u64, zeros);
    let lo = sent_ns as u64;
    let hi = (sent_ns >> 64u128) as u64;
    assert(((lo as u128) | ((hi as u128) << 64u128)) == sent_ns) by (bit_vector)
        requires
            lo == sent_ns as u64,
            hi == (sent_ns >> 64u128) as u64,
    ;
}

} // verus!
