use batch_fetch::decimal::{decimal_string, parse_unsigned};
use batch_fetch::failure::Failure;
use batch_fetch::transfer::{
    accepts_byte_ranges, evaluate_probe, plan_transfer, probe_admits, range_header, remaining_total,
    ProgressThrottle, StreamPhase, Transfer,
};

#[test]
fn decimal_string_values() {
    assert_eq!(decimal_string(0), "0");
    assert_eq!(decimal_string(7), "7");
    assert_eq!(decimal_string(1234), "1234");
    assert_eq!(decimal_string(u64::MAX), "18446744073709551615");
}

#[test]
fn parse_unsigned_accepts_plain_and_plus() {
    assert_eq!(parse_unsigned(b"5000"), Some(5000));
    assert_eq!(parse_unsigned(b"+12"), Some(12));
    assert_eq!(parse_unsigned(b"0"), Some(0));
    assert_eq!(parse_unsigned(b"007"), Some(7));
    assert_eq!(parse_unsigned(b"18446744073709551615"), Some(u64::MAX));
}

#[test]
fn parse_unsigned_rejects_malformed() {
    assert_eq!(parse_unsigned(b""), None);
    assert_eq!(parse_unsigned(b"+"), None);
    assert_eq!(parse_unsigned(b"12a"), None);
    assert_eq!(parse_unsigned(b"-1"), None);
    assert_eq!(parse_unsigned(b" 12"), None);
    assert_eq!(parse_unsigned(b"18446744073709551616"), None);
    assert_eq!(parse_unsigned(b"99999999999999999999999"), None);
}

#[test]
fn probe_status_classes() {
    assert!(probe_admits(200));
    assert!(probe_admits(206));
    assert!(probe_admits(302));
    assert!(probe_admits(399));
    assert!(!probe_admits(199));
    assert!(!probe_admits(404));
    assert!(!probe_admits(500));
}

#[test]
fn accept_ranges_only_bytes() {
    assert!(accepts_byte_ranges(Some(b"bytes")));
    assert!(!accepts_byte_ranges(Some(b"none")));
    assert!(!accepts_byte_ranges(Some(b"Bytes")));
    assert!(!accepts_byte_ranges(Some(b"bytes ")));
    assert!(!accepts_byte_ranges(None));
}

#[test]
fn probe_not_found_is_probe_failure() {
    let r = evaluate_probe(404, Some(b"10"), Some(b"bytes"));
    assert!(matches!(r, Err(Failure::ProbeStatus(404))));
}

#[test]
fn probe_reads_size_and_ranges() {
    let info = evaluate_probe(200, Some(b"5000"), Some(b"bytes")).unwrap();
    assert_eq!(info.expected_size, Some(5000));
    assert!(info.range_supported);
    let info = evaluate_probe(301, Some(b"abc"), None).unwrap();
    assert_eq!(info.expected_size, None);
    assert!(!info.range_supported);
}

#[test]
fn plan_resumes_only_with_ranges_and_existing_file() {
    let p = plan_transfer(true, true, Some(1000));
    assert_eq!(p.start_offset, 1000);
    assert!(!p.truncate);
    assert_eq!(p.range_start, Some(1000));

    let p = plan_transfer(true, true, None);
    assert_eq!(p.start_offset, 0);
    assert!(p.truncate);
    assert_eq!(p.range_start, None);

    let p = plan_transfer(false, true, Some(1000));
    assert_eq!(p.start_offset, 0);
    assert!(p.truncate);
}

#[test]
fn plan_without_range_support_restarts() {
    let p = plan_transfer(true, false, Some(1000));
    assert_eq!(p.start_offset, 0);
    assert!(p.truncate);
    assert_eq!(p.range_start, None);
}

#[test]
fn plan_empty_existing_file_starts_fresh() {
    let p = plan_transfer(true, true, Some(0));
    assert_eq!(p.start_offset, 0);
    assert!(p.truncate);
    assert_eq!(p.range_start, None);
}

#[test]
fn range_header_value() {
    assert_eq!(range_header(1000), "bytes=1000-");
    assert_eq!(range_header(0), "bytes=0-");
}

#[test]
fn remaining_total_values() {
    assert_eq!(remaining_total(Some(5000), 1000), Some(4000));
    assert_eq!(remaining_total(Some(5000), 0), Some(5000));
    assert_eq!(remaining_total(Some(500), 1000), Some(0));
    assert_eq!(remaining_total(None, 1000), None);
}

#[test]
fn chunks_are_batched_into_blocks() {
    let mut t = Transfer::new(0, 4);
    assert_eq!(t.push_chunk(&[1, 2]).unwrap(), None);
    assert_eq!(t.bytes_written(), 2);
    assert_eq!(t.push_chunk(&[3]).unwrap(), None);
    assert_eq!(t.buffered(), 3);
    assert_eq!(t.push_chunk(&[4, 5, 6]).unwrap(), Some(vec![1, 2, 3, 4, 5, 6]));
    assert_eq!(t.buffered(), 0);
    assert_eq!(t.bytes_written(), 6);
    assert_eq!(t.push_chunk(&[7]).unwrap(), None);
    assert_eq!(t.finish(), vec![7]);
    assert_eq!(t.phase(), StreamPhase::Done);
    assert_eq!(t.bytes_written(), 7);
}

#[test]
fn zero_capacity_flushes_every_chunk() {
    let mut t = Transfer::new(0, 0);
    assert_eq!(t.push_chunk(&[9, 8]).unwrap(), Some(vec![9, 8]));
    assert_eq!(t.push_chunk(&[]).unwrap(), Some(vec![]));
    assert_eq!(t.finish(), Vec::<u8>::new());
}

#[test]
fn counter_overflow_is_refused() {
    let mut t = Transfer::new(u64::MAX - 1, 16);
    assert_eq!(t.push_chunk(&[1]).unwrap(), None);
    assert!(matches!(t.push_chunk(&[2]), Err(Failure::SizeOverflow)));
    assert_eq!(t.bytes_written(), u64::MAX);
    assert_eq!(t.buffered(), 1);
}

fn run_stream(start: u64, capacity: usize, body: &[u8], chunk: usize, positions: &mut Vec<u64>) -> (Vec<u8>, u64) {
    let mut t = Transfer::new(start, capacity);
    let mut written = Vec::new();
    for c in body.chunks(chunk) {
        if let Some(block) = t.push_chunk(c).unwrap() {
            written.extend_from_slice(&block);
        }
        positions.push(t.bytes_written());
    }
    written.extend_from_slice(&t.finish());
    (written, t.bytes_written())
}

#[test]
fn resume_of_partial_artifact_matches_full_download() {
    let resource: Vec<u8> = (0..5000u32).map(|i| (i * 7 % 251) as u8).collect();
    let mut artifact = resource[..1000].to_vec();
    let plan = plan_transfer(true, true, Some(artifact.len() as u64));
    assert_eq!(plan.start_offset, 1000);
    assert_eq!(range_header(plan.range_start.unwrap()), "bytes=1000-");
    let mut positions = Vec::new();
    let (written, total) = run_stream(plan.start_offset, 8192, &resource[1000..], 300, &mut positions);
    assert_eq!(written.len(), 4000);
    artifact.truncate(plan.start_offset as usize);
    artifact.extend_from_slice(&written);
    assert_eq!(artifact.len(), 5000);
    assert_eq!(artifact, resource);
    assert_eq!(total, 5000);

    let mut fresh_positions = Vec::new();
    let (fresh, fresh_total) = run_stream(0, 8192, &resource, 300, &mut fresh_positions);
    assert_eq!(fresh, artifact);
    assert_eq!(fresh_total, 5000);
}

#[test]
fn bytes_written_never_decreases_and_ends_at_size() {
    let body: Vec<u8> = (0..1000u32).map(|i| i as u8).collect();
    let mut positions = Vec::new();
    let (written, total) = run_stream(0, 128, &body, 37, &mut positions);
    for w in positions.windows(2) {
        assert!(w[0] <= w[1]);
    }
    assert_eq!(total, written.len() as u64);
    assert_eq!(written, body);
}

#[test]
fn progress_position_counts_this_attempt() {
    let mut t = Transfer::new(1000, 8192);
    t.push_chunk(&[0u8; 250]).unwrap();
    assert_eq!(t.progress_position(), 250);
    assert_eq!(t.start_offset(), 1000);
    assert_eq!(t.bytes_written(), 1250);
}

#[test]
fn throttle_lets_through_after_interval() {
    let mut th = ProgressThrottle::new(100, 0);
    assert_eq!(th.offer(50, 10), None);
    assert_eq!(th.offer(100, 20), None);
    assert_eq!(th.offer(101, 30), Some(30));
    assert_eq!(th.last_ms, 101);
    assert_eq!(th.offer(150, 40), None);
    assert_eq!(th.offer(90, 40), None);
    assert_eq!(th.offer(202, 50), Some(50));
}
