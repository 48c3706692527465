//! Offline analysis of a packet capture exported as JSON: the TCP payloads are
//! hex-decoded, joined into one stream and split into session frames.
use vstd::prelude::*;

verus! {

/// One captured packet.
pub struct PcapData {
    pub index: String,
    pub pcap_type: String,
    pub score: Option<String>,
    pub source: Layers,
}

pub struct Layers {
    pub layers: PcapLayers,
}

/// The protocol fields of a packet; each present field lists its values.
pub struct PcapLayers {
    pub frame_len: Option<Vec<String>>,
    pub ip_len: Option<Vec<String>>,
    pub tcp_dest: Option<Vec<String>>,
    pub tcp_src: Option<Vec<String>>,
    pub tcp_payload: Option<Vec<String>>,
}

#[derive(Debug, Clone, Copy, PartialEq, Eq, Structural)]
pub enum AnalyzeError {
    /// Packet `index` has a TCP payload field with no value.
    EmptyPayload { index: usize },
    /// The TCP payload of packet `index` is not a hex string.
    BadHex { index: usize },
}

/// The value of a hex digit, either case.
pub open spec fn hex_digit(c: char) -> Option<u8> {
    let v = c as u32;
    if 48 <= v <= 57 {
        Some((v - 48) as u8)
    } else if 97 <= v <= 102 {
        Some((v - 87) as u8)
    } else if 65 <= v <= 70 {
        Some((v - 55) as u8)
    } else {
        None
    }
}

/// The bytes that a hex string stands for: two digits per byte, the high one
/// first. `None` for an odd length or a character that is not a hex digit.
pub open spec fn hex_decoding(s: Seq<char>) -> Option<Seq<u8>> {
    if s.len() % 2 != 0 || exists|i: int| 0 <= i < s.len() && #[trigger] hex_digit(s[i]) is None {
        None
    } else {
        Some(
            Seq::new(
                s.len() / 2,
                |i: int| (16 * hex_digit(s[2 * i])->0 + hex_digit(s[2 * i + 1])->0) as u8,
            ),
        )
    }
}

/// Relies on hex's `decode`: both cases accepted, an odd length or a non-digit
/// refused.
#[verifier::external_body]
fn decode_hex(s: &str) -> (r: Option<Vec<u8>>)
    ensures
        match hex_decoding(s@) {
            Some(b) => r matches Some(v) && v@ == b,
            None => r is None,
        },
{
    hex::decode(s).ok()
}

/// The stream carried by the captured packets, in order: the first value of
/// each TCP payload field, hex-decoded.
pub open spec fn captured_stream(pkts: Seq<PcapData>) -> Result<Seq<u8>, AnalyzeError>
    decreases pkts.len(),
{
    if pkts.len() == 0 {
        Ok(Seq::empty())
    } else {
        let index = (pkts.len() - 1) as usize;
        match captured_stream(pkts.drop_last()) {
            Err(e) => Err(e),
            Ok(acc) => match pkts.last().source.layers.tcp_payload {
                None => Ok(acc),
                Some(v) => if v@.len() == 0 {
                    Err(AnalyzeError::EmptyPayload { index })
                } else {
                    match hex_decoding(v@[0]@) {
                        None => Err(AnalyzeError::BadHex { index }),
                        Some(b) => Ok(acc + b),
                    }
                },
            },
        }
    }
}

/// Once a packet is refused, the packets after it do not change the outcome.
proof fn lemma_error_stays(pkts: Seq<PcapData>, n: int, m: int)
    requires
        0 <= n <= m <= pkts.len(),
        captured_stream(pkts.subrange(0, n)) is Err,
    ensures
        captured_stream(pkts.subrange(0, m)) == captured_stream(pkts.subrange(0, n)),
    decreases m - n,
{
    if m > n {
        lemma_error_stays(pkts, n, m - 1);
        assert(pkts.subrange(0, m).drop_last() =~= pkts.subrange(0, m - 1));
    }
}

/// Joins the TCP payloads of the captured packets into one byte stream.
pub fn collect_payload(pkts: &Vec<PcapData>) -> (r: Result<Vec<u8>, AnalyzeError>)
    ensures
        match captured_stream(pkts@) {
            Ok(s) => r matches Ok(v) && v@ == s,
            Err(e) => r == Err::<Vec<u8>, AnalyzeError>(e),
        },
{
    let mut out: Vec<u8> = Vec::new();
    let mut i: usize = 0;
    while i < pkts.len()
        invariant
            i <= pkts@.len(),
            captured_stream(pkts@.subrange(0, i as int)) == Ok::<Seq<u8>, AnalyzeError>(out@),
        decreases pkts@.len() - i,
    {
        let ghost prefix = pkts@.subrange(0, i + 1);
        proof {
            assert(prefix.drop_last() =~= pkts@.subrange(0, i as int));
            assert(prefix.last() == pkts@[i as int]);
        }
        match &pkts[i].source.layers.tcp_payload {
            None => {},
            Some(v) => {
                if v.len() == 0 {
                    proof {
                        lemma_error_stays(pkts@, i + 1, pkts@.len() as int);
                        assert(pkts@.subrange(0, pkts@.len() as int) =~= pkts@);
                    }
                    return Err(AnalyzeError::EmptyPayload { index: i });
                }
                match decode_hex(v[0].as_str()) {
                    None => {
                        proof {
                            lemma_error_stays(pkts@, i + 1, pkts@.len() as int);
                            assert(pkts@.subrange(0, pkts@.len() as int) =~= pkts@);
                        }
                        return Err(AnalyzeError::BadHex { index: i });
                    },
                    Some(mut d) => {
                        out.append(&mut d);
                    },
                }
            },
        }
        i = i + 1;
    }
    proof {
        assert(pkts@.subrange(0, i as int) =~= pkts@);
    }
    Ok(out)
}

/// What a decoded capture holds, in order: one entry per transport message,
/// listing the messages it carries, each as `Some(payload length)` for a
/// Data message and `None` for any other.
pub type Summary = Vec<Vec<Option<usize>>>;

/// Counts of what a capture holds, each saturating at `usize::MAX`.
#[derive(Debug, Clone, Copy, PartialEq, Eq)]
pub struct CaptureStats {
    pub transport_messages: usize,
    pub zenoh_messages: usize,
    pub data_messages: usize,
    pub payload_bytes: usize,
}

pub open spec fn sat(n: nat) -> usize {
    if n <= usize::MAX {
        n as usize
    } else {
        usize::MAX
    }
}

/// Data messages among the carried messages `m`.
pub open spec fn data_in(m: Seq<Option<usize>>) -> nat
    decreases m.len(),
{
    if m.len() == 0 {
        0
    } else {
        data_in(m.drop_last()) + if m.last() is Some {
            1nat
        } else {
            0
        }
    }
}

/// Payload bytes of the Data messages among `m`.
pub open spec fn bytes_in(m: Seq<Option<usize>>) -> nat
    decreases m.len(),
{
    if m.len() == 0 {
        0
    } else {
        bytes_in(m.drop_last()) + match m.last() {
            Some(n) => n as nat,
            None => 0,
        }
    }
}

/// Messages carried by the transport messages `ms`.
pub open spec fn carried_total(ms: Seq<Seq<Option<usize>>>) -> nat
    decreases ms.len(),
{
    if ms.len() == 0 {
        0
    } else {
        carried_total(ms.drop_last()) + ms.last().len()
    }
}

pub open spec fn data_total(ms: Seq<Seq<Option<usize>>>) -> nat
    decreases ms.len(),
{
    if ms.len() == 0 {
        0
    } else {
        data_total(ms.drop_last()) + data_in(ms.last())
    }
}

pub open spec fn bytes_total(ms: Seq<Seq<Option<usize>>>) -> nat
    decreases ms.len(),
{
    if ms.len() == 0 {
        0
    } else {
        bytes_total(ms.drop_last()) + bytes_in(ms.last())
    }
}

/// The counts of a capture whose transport messages carry `ms`.
pub open spec fn tally_spec(ms: Seq<Seq<Option<usize>>>) -> CaptureStats {
    CaptureStats {
        transport_messages: sat(ms.len()),
        zenoh_messages: sat(carried_total(ms)),
        data_messages: sat(data_total(ms)),
        payload_bytes: sat(bytes_total(ms)),
    }
}

/// The views of the entries of a summary.
pub open spec fn summary_view(s: Seq<Vec<Option<usize>>>) -> Seq<Seq<Option<usize>>> {
    s.map_values(|m: Vec<Option<usize>>| m@)
}

fn sat_add(a: usize, b: usize) -> (r: usize)
    ensures
        r == if a + b <= usize::MAX {
            (a + b) as usize
        } else {
            usize::MAX
        },
{
    if b <= usize::MAX - a {
        a + b
    } else {
        usize::MAX
    }
}

/// Counts the transport messages of a capture, the messages they carry, and
/// the Data messages among those with their payload bytes.
pub fn tally(summary: &Summary) -> (r: CaptureStats)
    ensures
        r == tally_spec(summary_view(summary@)),
{
    let ghost view = summary_view(summary@);
    let mut st = CaptureStats { transport_messages: 0, zenoh_messages: 0, data_messages: 0, payload_bytes: 0 };
    let mut i: usize = 0;
    while i < summary.len()
        invariant
            i <= summary@.len(),
            view == summary_view(summary@),
            st == tally_spec(view.subrange(0, i as int)),
        decreases summary@.len() - i,
    {
        let m = &summary[i];
        let ghost before = view.subrange(0, i as int);
        let mut j: usize = 0;
        while j < m.len()
            invariant
                j <= m@.len(),
                m@ == view[i as int],
                st.transport_messages == sat(before.len()),
                st.zenoh_messages == sat(carried_total(before) + j as nat),
                st.data_messages == sat(data_total(before) + data_in(m@.subrange(0, j as int))),
                st.payload_bytes == sat(bytes_total(before) + bytes_in(m@.subrange(0, j as int))),
            decreases m@.len() - j,
        {
            proof {
                assert(m@.subrange(0, j + 1).drop_last() =~= m@.subrange(0, j as int));
            }
            st.zenoh_messages = sat_add(st.zenoh_messages, 1);
            if let Some(n) = m[j] {
                st.data_messages = sat_add(st.data_messages, 1);
                st.payload_bytes = sat_add(st.payload_bytes, n);
            }
            j = j + 1;
        }
        st.transport_messages = sat_add(st.transport_messages, 1);
        proof {
            let after = view.subrange(0, i + 1);
            assert(after.drop_last() =~= before);
            assert(m@.subrange(0, m@.len() as int) =~= m@);
        }
        i = i + 1;
    }
    proof {
        assert(view.subrange(0, i as int) =~= view);
    }
    st
}

/// Payload bytes per Data message, rounded down; `None` when no Data message
/// was found.
pub fn mean_payload(total: usize, count: usize) -> (r: Option<usize>)
    ensures
        count == 0 ==> r is None,
        count > 0 ==> r == Some((total / count) as usize),
{
    if count == 0 {
        None
    } else {
        Some(total / count)
    }
}

} // verus!
