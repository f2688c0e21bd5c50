use s3_stream_download::error::{ProbeOutcome, StreamError, size_from_probe};
use s3_stream_download::range::{is_no_further_range, next_range_end};
use s3_stream_download::reader::{Action, Event, Phase, RangeReader};

/// A stand-in for the object service: serves ranges of `content`, each body
/// in pieces of at most `piece` bytes, and fails the first `body_failures`
/// body reads.
struct Service {
    content: Vec<u8>,
    piece: usize,
    body_failures: usize,
    body: Option<Vec<u8>>,
    ranges: Vec<(u64, u64)>,
}

impl Service {
    fn new(content: Vec<u8>, piece: usize) -> Service {
        Service { content, piece, body_failures: 0, body: None, ranges: Vec::new() }
    }
}

fn object(n: usize) -> Vec<u8> {
    (0..n).map(|i| (i * 7 + 3) as u8).collect()
}

fn reader_for(size: usize, chunk: i64, retries: usize) -> RangeReader {
    RangeReader::new(ProbeOutcome::Length(Some(size as i64)), chunk, retries).unwrap()
}

/// One pull: feeds the reader what the service answers until it returns.
fn pull(r: &mut RangeReader, svc: &mut Service, capacity: usize) -> Result<Vec<u8>, StreamError> {
    let mut event = Event::Pull;
    loop {
        match r.step(capacity, event) {
            Action::SendRange { start, end } => {
                svc.ranges.push((start, end));
                svc.body = Some(svc.content[start as usize..=end as usize].to_vec());
                event = Event::RangeReady;
            }
            Action::AwaitRange => event = Event::RangeReady,
            Action::ReadBody => {
                if svc.body_failures > 0 {
                    svc.body_failures -= 1;
                    svc.body = None;
                    event = Event::BodyFailed(String::from("connection reset"));
                    continue;
                }
                let body = svc.body.as_mut().unwrap();
                if body.is_empty() {
                    svc.body = None;
                    event = Event::BodyDone;
                } else {
                    let n = svc.piece.min(body.len());
                    let rest = body.split_off(n);
                    let chunk = std::mem::replace(body, rest);
                    event = Event::BodyChunk(chunk);
                }
            }
            Action::Deliver(bytes) => return Ok(bytes),
            Action::EndOfStream => return Ok(Vec::new()),
            Action::Fail(e) => return Err(e),
        }
    }
}

/// Pulls until the end of the stream; the sizes of the pulls and the bytes.
fn pull_all(r: &mut RangeReader, svc: &mut Service, capacities: &[usize]) -> (Vec<usize>, Vec<u8>) {
    let mut sizes = Vec::new();
    let mut out = Vec::new();
    let mut i = 0;
    loop {
        let cap = capacities[i % capacities.len()];
        i += 1;
        let got = pull(r, svc, cap).unwrap();
        sizes.push(got.len());
        if got.is_empty() {
            return (sizes, out);
        }
        assert!(got.len() <= cap);
        out.extend_from_slice(&got);
    }
}

#[test]
fn ten_bytes_in_chunks_of_four() {
    let content = object(10);
    let mut r = reader_for(10, 4, 0);
    let mut svc = Service::new(content.clone(), 100);
    let (sizes, out) = pull_all(&mut r, &mut svc, &[100]);
    assert_eq!(sizes, vec![4, 4, 2, 0]);
    assert_eq!(out, content);
    assert_eq!(svc.ranges, vec![(0, 3), (4, 7), (8, 9)]);
    assert_eq!(r.downloaded(), 10);
    assert_eq!(r.phase(), &Phase::Exhausted);
}

#[test]
fn small_buffer_clamps_the_range() {
    let mut r = reader_for(10, 4, 0);
    assert_eq!(r.step(3, Event::Pull), Action::SendRange { start: 0, end: 2 });
    assert_eq!(r.phase(), &Phase::Requesting { end: 2 });
}

#[test]
fn any_buffer_sizes_give_the_whole_object_once() {
    let content = object(37);
    for chunk in [1i64, 3, 5, 64] {
        for piece in [1usize, 2, 7, 100] {
            let mut r = reader_for(37, chunk, 0);
            let mut svc = Service::new(content.clone(), piece);
            let (sizes, out) = pull_all(&mut r, &mut svc, &[1, 4, 2, 9, 3]);
            assert_eq!(out, content);
            assert_eq!(sizes.iter().filter(|n| **n == 0).count(), 1);
            assert_eq!(*sizes.last().unwrap(), 0);
        }
    }
}

#[test]
fn bytes_beyond_the_buffer_wait_for_the_next_pull() {
    let content = object(8);
    let mut r = reader_for(8, 8, 0);
    let mut svc = Service::new(content.clone(), 8);
    assert_eq!(pull(&mut r, &mut svc, 8).unwrap(), content[0..8].to_vec());
    let mut r = reader_for(8, 8, 0);
    assert_eq!(r.step(8, Event::Pull), Action::SendRange { start: 0, end: 7 });
    assert_eq!(r.step(8, Event::RangeReady), Action::ReadBody);
    assert_eq!(r.step(3, Event::BodyChunk(content.clone())), Action::Deliver(content[0..3].to_vec()));
    assert_eq!(r.step(2, Event::Pull), Action::Deliver(content[3..5].to_vec()));
    assert_eq!(r.step(10, Event::Pull), Action::Deliver(content[5..8].to_vec()));
    assert_eq!(r.step(10, Event::Pull), Action::ReadBody);
    assert_eq!(r.step(10, Event::BodyDone), Action::EndOfStream);
}

#[test]
fn empty_object_ends_at_once() {
    let mut r = reader_for(0, 4, 0);
    assert_eq!(r.step(16, Event::Pull), Action::EndOfStream);
    assert_eq!(r.step(16, Event::Pull), Action::EndOfStream);
}

#[test]
fn zero_room_returns_zero_bytes_and_keeps_state() {
    let mut r = reader_for(10, 4, 0);
    assert_eq!(r.step(0, Event::Pull), Action::Deliver(Vec::new()));
    assert_eq!(r.phase(), &Phase::Idle);
    assert_eq!(r.step(4, Event::Pull), Action::SendRange { start: 0, end: 3 });
}

#[test]
fn no_further_range_ends_cleanly() {
    for code in ["InvalidPartNumber", "InvalidRange"] {
        let mut r = reader_for(10, 4, 0);
        assert_eq!(r.step(4, Event::Pull), Action::SendRange { start: 0, end: 3 });
        let ev = Event::RangeFailed { code: Some(String::from(code)), detail: String::from("416") };
        assert_eq!(r.step(4, ev), Action::EndOfStream);
        assert_eq!(r.phase(), &Phase::Exhausted);
        assert_eq!(r.step(4, Event::Pull), Action::EndOfStream);
    }
}

#[test]
fn other_request_errors_fail_for_good() {
    let mut r = reader_for(10, 4, 3);
    r.step(4, Event::Pull);
    let ev = Event::RangeFailed { code: Some(String::from("AccessDenied")), detail: String::from("denied") };
    let err = StreamError::Transport(String::from("denied"));
    assert_eq!(r.step(4, ev), Action::Fail(err.duplicate()));
    assert_eq!(r.step(4, Event::Pull), Action::Fail(err.duplicate()));
    assert_eq!(r.step(4, Event::RangeReady), Action::Fail(err));
    let mut r = reader_for(10, 4, 3);
    r.step(4, Event::Pull);
    let ev = Event::RangeFailed { code: None, detail: String::from("timeout") };
    assert_eq!(r.step(4, ev), Action::Fail(StreamError::Transport(String::from("timeout"))));
}

#[test]
fn retried_failures_do_not_change_the_output() {
    let content = object(23);
    let mut r = reader_for(23, 5, 3);
    let mut svc = Service::new(content.clone(), 2);
    let (plain_sizes, plain) = pull_all(&mut r, &mut svc, &[4]);
    let mut r = reader_for(23, 5, 3);
    let mut svc = Service::new(content.clone(), 2);
    svc.body_failures = 2;
    let (sizes, out) = pull_all(&mut r, &mut svc, &[4]);
    assert_eq!(out, plain);
    assert_eq!(out, content);
    assert_eq!(sizes, plain_sizes);
    assert_eq!(r.retries_used(), 2);
}

#[test]
fn retry_asks_again_from_the_first_missing_byte() {
    let content = object(10);
    let mut r = reader_for(10, 6, 1);
    assert_eq!(r.step(6, Event::Pull), Action::SendRange { start: 0, end: 5 });
    assert_eq!(r.step(6, Event::RangeReady), Action::ReadBody);
    assert_eq!(r.step(6, Event::BodyChunk(content[0..2].to_vec())), Action::Deliver(content[0..2].to_vec()));
    assert_eq!(r.step(6, Event::Pull), Action::ReadBody);
    let ev = Event::BodyFailed(String::from("reset"));
    assert_eq!(r.step(6, ev), Action::SendRange { start: 2, end: 7 });
    assert_eq!(r.retries_used(), 1);
}

#[test]
fn failures_beyond_the_budget_fail_for_good() {
    let content = object(12);
    let mut r = reader_for(12, 4, 2);
    let mut svc = Service::new(content, 4);
    svc.body_failures = 3;
    let err = pull(&mut r, &mut svc, 4).unwrap_err();
    assert_eq!(err, StreamError::BodyRead(String::from("connection reset")));
    assert_eq!(pull(&mut r, &mut svc, 4).unwrap_err(), err);
    assert_eq!(pull(&mut r, &mut svc, 4).unwrap_err(), err);
    assert_eq!(r.phase(), &Phase::Failed(err));
}

#[test]
fn overlong_body_is_a_body_failure() {
    let mut r = reader_for(10, 4, 0);
    r.step(4, Event::Pull);
    r.step(4, Event::RangeReady);
    assert_eq!(r.step(4, Event::BodyChunk(object(5))), Action::Fail(StreamError::BodyOverrun));
    let mut r = reader_for(10, 4, 1);
    r.step(4, Event::Pull);
    r.step(4, Event::RangeReady);
    assert_eq!(r.step(4, Event::BodyChunk(object(5))), Action::SendRange { start: 0, end: 3 });
}

#[test]
fn empty_body_piece_reads_on() {
    let mut r = reader_for(10, 4, 0);
    r.step(4, Event::Pull);
    r.step(4, Event::RangeReady);
    assert_eq!(r.step(4, Event::BodyChunk(Vec::new())), Action::ReadBody);
}

#[test]
fn construction_errors() {
    assert_eq!(RangeReader::new(ProbeOutcome::NotFound, 4, 0).unwrap_err(), StreamError::NotFound);
    assert_eq!(RangeReader::new(ProbeOutcome::Length(None), 4, 0).unwrap_err(), StreamError::SizeUnavailable);
    assert_eq!(RangeReader::new(ProbeOutcome::Length(Some(-1)), 4, 0).unwrap_err(), StreamError::SizeUnavailable);
    assert_eq!(
        RangeReader::new(ProbeOutcome::Failed(String::from("dns")), 4, 0).unwrap_err(),
        StreamError::Transport(String::from("dns"))
    );
    assert_eq!(RangeReader::new(ProbeOutcome::Length(Some(10)), 0, 0).unwrap_err(), StreamError::InvalidChunkSize);
    assert_eq!(RangeReader::new(ProbeOutcome::NotFound, 0, 0).unwrap_err(), StreamError::NotFound);
    let r = RangeReader::new(ProbeOutcome::Length(Some(10)), 4, 2).unwrap();
    assert_eq!(r.total_size(), 10);
    assert_eq!(r.downloaded(), 0);
    assert_eq!(r.retries_used(), 0);
    assert_eq!(r.phase(), &Phase::Idle);
}

#[test]
fn probe_sizes() {
    assert_eq!(size_from_probe(ProbeOutcome::Length(Some(0))), Ok(0));
    assert_eq!(size_from_probe(ProbeOutcome::Length(Some(i64::MAX))), Ok(i64::MAX as u64));
    assert_eq!(size_from_probe(ProbeOutcome::Length(None)), Err(StreamError::SizeUnavailable));
}

#[test]
fn range_ends() {
    assert_eq!(next_range_end(0, 10, 4, 100), 3);
    assert_eq!(next_range_end(8, 10, 4, 100), 9);
    assert_eq!(next_range_end(0, 10, 4, 3), 2);
    assert_eq!(next_range_end(5, 6, 4, 1), 5);
    assert_eq!(next_range_end(u64::MAX - 2, u64::MAX, u64::MAX, usize::MAX), u64::MAX - 1);
}

#[test]
fn error_code_classification() {
    assert!(is_no_further_range("InvalidPartNumber"));
    assert!(is_no_further_range("InvalidRange"));
    assert!(!is_no_further_range("InvalidRangeX"));
    assert!(!is_no_further_range("NoSuchKey"));
    assert!(!is_no_further_range(""));
}
