use satnogs_monitor::watcher::{CaptureState, CaptureTracker};
use satnogs_monitor::waterfall::{
    encode_header, frequency_axis, parse_header, parse_timestamp, WaterfallError,
    WaterfallSession,
};

fn sample_header_bytes() -> Vec<u8> {
    encode_header(b"2020-03-23T09:34:47.193416Z", 4, 48_000, 1, 0x4448_0000, 0x0001_0203)
}

fn record_bytes(seconds: i64, bins: &[u32]) -> Vec<u8> {
    let mut out = Vec::new();
    out.extend_from_slice(&seconds.to_le_bytes());
    for b in bins {
        out.extend_from_slice(&b.to_le_bytes());
    }
    out
}

#[test]
fn can_parse_datetime_string() {
    let buf: &[u8] = b"2020-03-23T09:34:47.193416Z\x00\xde\xad\xc0\xde";
    let _datetime = parse_timestamp(buf).unwrap();
}

#[test]
#[should_panic]
fn err_on_invalid_waterfall_timestamp() {
    let buf: &[u8] = b"2020-03!23T09:34:47.193416Z\x00\xde\xad\xc0\xde";
    let _datetime = parse_timestamp(buf).unwrap();
}

#[test]
fn timestamp_parses_to_expected_instant() {
    let buf: &[u8] = b"2020-03-23T09:34:47.193416Z\x00\xde\xad\xc0\xde";
    assert_eq!(parse_timestamp(buf), Ok(1_584_956_087));
}

#[test]
fn header_round_trips() {
    let bytes = sample_header_bytes();
    assert_eq!(bytes.len(), 52);
    let header = parse_header(&bytes).unwrap();
    assert_eq!(header.timestamp, b"2020-03-23T09:34:47.193416Z".to_vec());
    assert_eq!(header.timestamp_secs, 1_584_956_087);
    assert_eq!(header.fft_size, 4);
    assert_eq!(header.sample_rate, 48_000);
    assert_eq!(header.nfft_per_row, 1);
    assert_eq!(header.center_freq_bits, 0x4448_0000);
    assert_eq!(header.endianness, 0x0001_0203);
}

#[test]
fn short_header_is_rejected() {
    let bytes = sample_header_bytes();
    match parse_header(&bytes[0..51]) {
        Err(WaterfallError::TruncatedHeader) => {}
        _ => panic!("expected a truncated header error"),
    }
}

#[test]
fn malformed_header_timestamp_is_rejected() {
    let bytes = encode_header(b"not a timestamp", 4, 48_000, 1, 0, 0);
    match parse_header(&bytes) {
        Err(WaterfallError::InvalidTimestamp) => {}
        _ => panic!("expected an invalid timestamp error"),
    }
}

#[test]
fn two_and_a_half_records_yield_exactly_two_rows() {
    // a valid header followed by 2.5 records' worth of bytes
    let mut file = sample_header_bytes();
    let header = parse_header(&file).unwrap();
    file.extend_from_slice(&record_bytes(10, &[1, 2, 3, 4]));
    file.extend_from_slice(&record_bytes(11, &[5, 6, 7, 8]));
    file.extend_from_slice(&record_bytes(12, &[9, 10, 11, 12])[0..12]);
    let mut session = WaterfallSession::new(7, header);
    assert_eq!(session.cursor, 52);
    let rows = session.advance(&file);
    assert_eq!(rows.len(), 2);
    assert_eq!(rows[0], (10, vec![1, 2, 3, 4]));
    assert_eq!(rows[1], (11, vec![5, 6, 7, 8]));
    assert_eq!(session.cursor, 52 + 2 * 24);
    // the half record stays unread until the rest of it lands
    let again = session.advance(&file);
    assert_eq!(again.len(), 0);
    assert_eq!(session.cursor, 52 + 2 * 24);
}

#[test]
fn completed_record_is_read_after_more_bytes_arrive() {
    let mut file = sample_header_bytes();
    let header = parse_header(&file).unwrap();
    file.extend_from_slice(&record_bytes(10, &[1, 2, 3, 4]));
    file.extend_from_slice(&record_bytes(11, &[5, 6, 7, 8])[0..12]);
    let mut session = WaterfallSession::new(7, header);
    let rows = session.advance(&file);
    assert_eq!(rows.len(), 1);
    file.extend_from_slice(&record_bytes(11, &[5, 6, 7, 8])[12..24]);
    let rows = session.advance(&file);
    assert_eq!(rows.len(), 1);
    assert_eq!(rows[0], (11, vec![5, 6, 7, 8]));
    assert_eq!(session.cursor, 52 + 2 * 24);
}

#[test]
fn negative_record_timestamp_survives() {
    let mut file = sample_header_bytes();
    let header = parse_header(&file).unwrap();
    file.extend_from_slice(&record_bytes(-5, &[0, 0, 0, 0xFFFF_FFFF]));
    let mut session = WaterfallSession::new(7, header);
    let rows = session.advance(&file);
    assert_eq!(rows.len(), 1);
    assert_eq!(rows[0].0, -5);
    assert_eq!(rows[0].1[3], 0xFFFF_FFFF);
}

#[test]
fn frequency_axis_spans_the_sample_rate() {
    let axis = frequency_axis(48_000, 3);
    assert_eq!(axis, vec![-24_000_000, 0, 24_000_000]);
    let axis = frequency_axis(48_000, 2);
    assert_eq!(axis, vec![-24_000_000, 24_000_000]);
    let single = frequency_axis(10_000, 1);
    assert_eq!(single, vec![-5_000_000]);
    assert!(frequency_axis(10_000, 0).is_empty());
    let axis = frequency_axis(10_000, 5);
    assert_eq!(axis[0], -5_000_000);
    assert_eq!(axis[4], 5_000_000);
    assert_eq!(axis.len(), 5);
}

#[test]
fn capture_path_yields_observation_id() {
    let path: &[u8] = b"/tmp/.satnogs/data/receiving_waterfall_1234_2020-03-23T09-34-47.dat";
    assert_eq!(satnogs_monitor::watcher::match_capture_path(path), Some(1234));
    let tmp: &[u8] = b"/data/receiving_waterfall_42_x.dat.tmp";
    assert_eq!(satnogs_monitor::watcher::match_capture_path(tmp), Some(42));
}

#[test]
fn unrelated_paths_are_ignored() {
    assert_eq!(satnogs_monitor::watcher::match_capture_path(b""), None);
    assert_eq!(
        satnogs_monitor::watcher::match_capture_path(b"/tmp/receiving_waterfall_12_x.wav"),
        None
    );
    assert_eq!(
        satnogs_monitor::watcher::match_capture_path(b"receiving_waterfall_12_x.dat"),
        None
    );
    assert_eq!(
        satnogs_monitor::watcher::match_capture_path(b"/tmp/receiving_waterfall__x.dat"),
        None
    );
}

#[test]
fn tracker_runs_one_session() {
    let mut tracker = CaptureTracker::new();
    tracker.on_created(99);
    match tracker.state {
        CaptureState::AwaitingHeader(obs) => assert_eq!(obs, 99),
        _ => panic!("expected to be awaiting the header"),
    }
    let mut file = sample_header_bytes();
    let created = tracker.on_header(&file).unwrap();
    match created {
        Some(satnogs_monitor::event::Event::WaterfallCreated(obs, axis)) => {
            assert_eq!(obs, 99);
            assert_eq!(axis.len(), 4);
            assert_eq!(axis[0], -24_000_000);
            assert_eq!(axis[3], 24_000_000);
        }
        _ => panic!("expected a creation event"),
    }
    file.extend_from_slice(&record_bytes(1, &[1, 2, 3, 4]));
    let rows = tracker.on_data(&file);
    assert_eq!(rows.len(), 1);
    let closed = tracker.on_closed(99);
    match closed {
        satnogs_monitor::event::Event::WaterfallClosed(obs) => assert_eq!(obs, 99),
        _ => panic!("expected a closing event"),
    }
    match tracker.state {
        CaptureState::Absent => {}
        _ => panic!("expected the tracker to be idle"),
    }
}

#[test]
fn tracker_abandons_bad_header() {
    let mut tracker = CaptureTracker::new();
    tracker.on_created(5);
    let bytes = encode_header(b"garbage", 4, 48_000, 1, 0, 0);
    match tracker.on_header(&bytes) {
        Err(WaterfallError::InvalidTimestamp) => {}
        _ => panic!("expected the header to be rejected"),
    }
    match tracker.state {
        CaptureState::Absent => {}
        _ => panic!("a bad header abandons the capture"),
    }
    // a later capture can still be tracked
    tracker.on_created(6);
    match tracker.state {
        CaptureState::AwaitingHeader(obs) => assert_eq!(obs, 6),
        _ => panic!("expected to be awaiting the next header"),
    }
}

#[test]
fn tracker_timeout_returns_to_idle() {
    let mut tracker = CaptureTracker::new();
    tracker.on_created(5);
    tracker.on_header_timeout();
    match tracker.state {
        CaptureState::Absent => {}
        _ => panic!("expected the tracker to be idle after the timeout"),
    }
}
