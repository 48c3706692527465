//! Probe payloads: the probe's sequence number as 8 little-endian bytes,
//! padded with zeros to the configured size.
use vstd::prelude::*;

verus! {

/// Number of bytes of the sequence number at the head of a probe.
pub const SEQ_BYTES: usize = 8;

/// The 8 little-endian bytes of `x`.
pub open spec fn le64(x: u64) -> Seq<u8> {
    seq![
        x as u8,
        (x >> 8) as u8,
        (x >> 16) as u8,
        (x >> 24) as u8,
        (x >> 32) as u8,
        (x >> 40) as u8,
        (x >> 48) as u8,
        (x >> 56) as u8,
    ]
}

/// The number whose little-endian bytes start `b`.
pub open spec fn u64_from_le(b: Seq<u8>) -> u64
    recommends
        b.len() >= 8,
{
    (b[0] as u64) | ((b[1] as u64) << 8) | ((b[2] as u64) << 16) | ((b[3] as u64) << 24) | ((
    b[4] as u64) << 32) | ((b[5] as u64) << 40) | ((b[6] as u64) << 48) | ((b[7] as u64) << 56)
}

/// The payload of probe `seq` when probes are `size` bytes long.
pub open spec fn probe_bytes(seq: u64, size: nat) -> Seq<u8> {
    le64(seq) + Seq::new((size - 8) as nat, |_i: int| 0u8)
}

/// Builds the payload of probe `seq`, `size` bytes long.
pub fn probe_payload(seq: u64, size: usize) -> (r: Option<Vec<u8>>)
    ensures
        size >= SEQ_BYTES ==> (r matches Some(p) && p@ == probe_bytes(seq, size as nat)),
        size < SEQ_BYTES ==> r is None,
{
    if size < SEQ_BYTES {
        return None;
    }
    let mut out: Vec<u8> = Vec::with_capacity(size);
    out.push(seq as u8);
    out.push((seq >> 8) as u8);
    out.push((seq >> 16) as u8);
    out.push((seq >> 24) as u8);
    out.push((seq >> 32) as u8);
    out.push((seq >> 40) as u8);
    out.push((seq >> 48) as u8);
    out.push((seq >> 56) as u8);
    proof {
        assert(out@ =~= le64(seq));
    }
    let mut i: usize = SEQ_BYTES;
    while i < size
        invariant
            SEQ_BYTES <= i <= size,
            out@ == le64(seq) + Seq::new((i - 8) as nat, |_j: int| 0u8),
        decreases size - i,
    {
        out.push(0u8);
        i = i + 1;
        proof {
            assert(out@ =~= le64(seq) + Seq::new((i - 8) as nat, |_j: int| 0u8));
        }
    }
    Some(out)
}

/// Reads the sequence number at the head of a reply.
pub fn probe_seq(payload: &[u8]) -> (r: Option<u64>)
    ensures
        payload@.len() >= SEQ_BYTES ==> r == Some(u64_from_le(payload@)),
        payload@.len() < SEQ_BYTES ==> r is None,
{
    if payload.len() < SEQ_BYTES {
        return None;
    }
    Some(
        (payload[0] as u64) | ((payload[1] as u64) << 8) | ((payload[2] as u64) << 16) | ((
        payload[3] as u64) << 24) | ((payload[4] as u64) << 32) | ((payload[5] as u64) << 40) | ((
        payload[6] as u64) << 48) | ((payload[7] as u64) << 56),
    )
}

/// Reading the head of a little-endian encoding gives the number back.
pub proof fn lemma_le64_round_trip(x: u64, tail: Seq<u8>)
    ensures
        u64_from_le(le64(x) + tail) == x,
{
    let b = le64(x) + tail;
    assert(b[0] == x as u8);
    assert(b[1] == (x >> 8) as u8);
    assert(b[2] == (x >> 16) as u8);
    assert(b[3] == (x >> 24) as u8);
    assert(b[4] == (x >> 32) as u8);
    assert(b[5] == (x >> 40) as u8);
    assert(b[6] == (x >> 48) as u8);
    assert(b[7] == (x >> 56) as u8);
    assert(((x as u8) as u64) | ((((x >> 8) as u8) as u64) << 8) | ((((x >> 16) as u8) as u64)
        << 16) | ((((x >> 24) as u8) as u64) << 24) | ((((x >> 32) as u8) as u64) << 32) | ((((x
        >> 40) as u8) as u64) << 40) | ((((x >> 48) as u8) as u64) << 48) | ((((x >> 56) as u8)
        as u64) << 56) == x) by (bit_vector);
}

/// The reply to probe `seq` names `seq` again.
pub proof fn lemma_probe_names_its_seq(seq: u64, size: nat)
    requires
        size >= 8,
    ensures
        probe_bytes(seq, size).len() == size,
        u64_from_le(probe_bytes(seq, size)) == seq,
{
    lemma_le64_round_trip(seq, Seq::new((size - 8) as nat, |_i: int| 0u8));
}

} // verus!
