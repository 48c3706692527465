use zbench::pcap::{
    collect_payload, mean_payload, tally, AnalyzeError, CaptureStats, Layers, PcapData, PcapLayers,
};

fn packet(payload: Option<Vec<&str>>) -> PcapData {
    PcapData {
        index: "packets-2021".to_string(),
        pcap_type: "doc".to_string(),
        score: None,
        source: Layers {
            layers: PcapLayers {
                frame_len: Some(vec!["66".to_string()]),
                ip_len: None,
                tcp_dest: None,
                tcp_src: None,
                tcp_payload: payload.map(|v| v.into_iter().map(|s| s.to_string()).collect()),
            },
        },
    }
}

#[test]
fn payloads_are_joined() {
    let pkts = vec![packet(Some(vec!["0102"])), packet(None), packet(Some(vec!["aBcD", "ff"]))];
    assert_eq!(collect_payload(&pkts), Ok(vec![1, 2, 0xab, 0xcd]));
}

#[test]
fn bad_hex_is_refused() {
    let pkts = vec![packet(Some(vec!["01"])), packet(Some(vec!["0g"]))];
    assert_eq!(collect_payload(&pkts), Err(AnalyzeError::BadHex { index: 1 }));
    let pkts = vec![packet(Some(vec!["012"]))];
    assert_eq!(collect_payload(&pkts), Err(AnalyzeError::BadHex { index: 0 }));
}

#[test]
fn empty_payload_field_is_refused() {
    let pkts = vec![packet(Some(vec![]))];
    assert_eq!(collect_payload(&pkts), Err(AnalyzeError::EmptyPayload { index: 0 }));
}

#[test]
fn keep_alive_capture_has_no_data() {
    let summary = vec![vec![], vec![]];
    let st = tally(&summary);
    assert_eq!(
        st,
        CaptureStats { transport_messages: 2, zenoh_messages: 0, data_messages: 0, payload_bytes: 0 }
    );
    assert_eq!(mean_payload(st.payload_bytes, st.data_messages), None);
}

#[test]
fn tally_counts_data_payloads() {
    let summary = vec![vec![Some(64), None, Some(16)], vec![], vec![Some(8)]];
    let st = tally(&summary);
    assert_eq!(
        st,
        CaptureStats { transport_messages: 3, zenoh_messages: 4, data_messages: 3, payload_bytes: 88 }
    );
    assert_eq!(mean_payload(st.payload_bytes, st.data_messages), Some(29));
}

#[test]
fn tally_saturates_payload_bytes() {
    let summary = vec![vec![Some(usize::MAX), Some(1)]];
    assert_eq!(tally(&summary).payload_bytes, usize::MAX);
}

#[test]
fn mean_payload_rounds_down() {
    assert_eq!(mean_payload(10, 3), Some(3));
    assert_eq!(mean_payload(0, 0), None);
}
