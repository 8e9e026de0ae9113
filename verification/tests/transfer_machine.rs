use cnpj_sqlite::transfer::{
    accepts_status, buffer_size, content_range_total, percent_done, range_header_value,
    response_event, Phase, Progress, TransferAction, TransferError, TransferEvent,
    TransferOutcome, TransferState,
};

const MIB: u64 = 1024 * 1024;

fn fresh() -> TransferState {
    TransferState::new("dados/Cnaes.zip".to_string())
}

fn response(status: u16, content_length: Option<u64>, range_total: Option<u64>) -> TransferEvent {
    TransferEvent::Response { status, content_length, range_total }
}

fn store(done: u64, total: u64) -> TransferAction {
    TransferAction::Store { progress: Some(Progress { bytes_done: done, bytes_total: total }) }
}

const QUIET_STORE: TransferAction = TransferAction::Store { progress: None };

/// Brings a new transfer of a file without local copy up to the response.
fn fetching(total: u64) -> TransferState {
    let mut t = fresh();
    t.step(TransferEvent::LocalSize { size: None });
    t.step(TransferEvent::Opened);
    t.step(response(200, Some(total), None));
    t
}

/// Fails the attempt under way while the request is sent.
fn fail_attempt(t: &mut TransferState) -> TransferAction {
    t.step(TransferEvent::LocalSize { size: None });
    t.step(TransferEvent::Opened);
    t.step(TransferEvent::SendFailed)
}

#[test]
fn a_fresh_transfer_runs_from_stat_to_success() {
    let mut t = fresh();
    assert_eq!(t.local_path(), "dados/Cnaes.zip");
    assert_eq!(t.pending_action(), TransferAction::Stat);
    assert_eq!(t.step(TransferEvent::LocalSize { size: None }), TransferAction::Open { append: false });
    assert_eq!(t.step(TransferEvent::Opened), TransferAction::Get { range_from: None, send_timeout_seconds: 600 });
    assert_eq!(
        t.step(response(200, Some(1000), None)),
        TransferAction::Receive { buffer_bytes: MIB, stall_after_seconds: 300 }
    );
    assert_eq!(t.phase(), Phase::Fetching);
    assert_eq!(t.step(TransferEvent::Chunk { len: 100 }), store(100, 1000));
    assert_eq!(t.step(TransferEvent::Chunk { len: 50 }), QUIET_STORE);
    assert_eq!(t.step(TransferEvent::Chunk { len: 850 }), store(1000, 1000));
    assert_eq!(
        t.step(TransferEvent::StreamEnd),
        TransferAction::Finish { outcome: TransferOutcome::Success { final_size: 1000 } }
    );
    assert!(t.is_finished());
    assert_eq!(t.outcome(), Some(TransferOutcome::Success { final_size: 1000 }));
    assert_eq!(t.local_path(), "dados/Cnaes.zip");
}

#[test]
fn an_empty_local_file_starts_afresh_without_a_probe() {
    let mut t = fresh();
    assert_eq!(t.step(TransferEvent::LocalSize { size: Some(0) }), TransferAction::Open { append: false });
    assert_eq!(t.step(TransferEvent::Opened), TransferAction::Get { range_from: None, send_timeout_seconds: 600 });
}

#[test]
fn a_partial_file_is_resumed_from_its_size() {
    let mut t = fresh();
    assert_eq!(t.step(TransferEvent::LocalSize { size: Some(400) }), TransferAction::Head { timeout_seconds: 10 });
    assert_eq!(t.step(TransferEvent::Probed { remote_size: Some(1000) }), TransferAction::Open { append: true });
    assert_eq!(t.step(TransferEvent::Opened), TransferAction::Get { range_from: Some(400), send_timeout_seconds: 600 });
    t.step(response(206, Some(600), Some(1000)));
    assert_eq!((t.bytes_written(), t.total_size_bytes(), t.last_percent()), (400, 1000, 40));
    assert_eq!(t.step(TransferEvent::Chunk { len: 99 }), QUIET_STORE);
    assert_eq!(t.step(TransferEvent::Chunk { len: 1 }), store(500, 1000));
    assert_eq!(t.step(TransferEvent::Chunk { len: 500 }), store(1000, 1000));
    assert_eq!(
        t.step(TransferEvent::StreamEnd),
        TransferAction::Finish { outcome: TransferOutcome::Success { final_size: 1000 } }
    );
}

#[test]
fn the_total_of_a_resumed_transfer_falls_back_to_length_plus_offset() {
    let mut t = fresh();
    t.step(TransferEvent::LocalSize { size: Some(400) });
    t.step(TransferEvent::Probed { remote_size: None });
    t.step(TransferEvent::Opened);
    t.step(response(206, Some(600), None));
    assert_eq!(t.total_size_bytes(), 1000);

    let mut t = fresh();
    t.step(TransferEvent::LocalSize { size: Some(400) });
    t.step(TransferEvent::Probed { remote_size: None });
    t.step(TransferEvent::Opened);
    t.step(response(200, None, None));
    assert_eq!(t.total_size_bytes(), 400);

    let mut t = fresh();
    t.step(TransferEvent::LocalSize { size: None });
    t.step(TransferEvent::Opened);
    t.step(response(200, Some(600), Some(1000)));
    assert_eq!(t.total_size_bytes(), 600);
}

#[test]
fn a_complete_file_is_not_fetched_again() {
    let mut t = fresh();
    assert_eq!(t.step(TransferEvent::LocalSize { size: Some(1000) }), TransferAction::Head { timeout_seconds: 10 });
    assert_eq!(
        t.step(TransferEvent::Probed { remote_size: Some(1000) }),
        TransferAction::Finish { outcome: TransferOutcome::Success { final_size: 1000 } }
    );
    assert_eq!(t.attempt(), 1);
}

#[test]
fn an_inconclusive_probe_is_not_fatal() {
    for remote_size in [None, Some(999), Some(0), Some(1001)] {
        let mut t = fresh();
        t.step(TransferEvent::LocalSize { size: Some(1000) });
        assert_eq!(t.step(TransferEvent::Probed { remote_size }), TransferAction::Open { append: true });
        assert_eq!(t.last_error(), None);
    }
}

#[test]
fn status_416_counts_as_complete() {
    let mut t = fresh();
    t.step(TransferEvent::LocalSize { size: Some(1000) });
    t.step(TransferEvent::Probed { remote_size: None });
    t.step(TransferEvent::Opened);
    assert_eq!(
        t.step(response(416, Some(0), Some(1000))),
        TransferAction::Finish { outcome: TransferOutcome::Success { final_size: 1000 } }
    );
}

#[test]
fn only_200_206_and_416_are_accepted() {
    for status in 0..=999u16 {
        assert_eq!(accepts_status(status), status == 200 || status == 206 || status == 416);
    }
    for status in [404u16, 500, 301, 204, 403] {
        let mut t = fresh();
        t.step(TransferEvent::LocalSize { size: None });
        t.step(TransferEvent::Opened);
        assert_eq!(t.step(response(status, Some(10), None)), TransferAction::Sleep { seconds: 3 });
        assert_eq!(t.last_error(), Some(TransferError::HttpStatus { code: status }));
    }
}

#[test]
fn a_short_body_is_incomplete_and_retried() {
    let mut t = fetching(1000);
    t.step(TransferEvent::Chunk { len: 999 });
    assert_eq!(t.step(TransferEvent::StreamEnd), TransferAction::Sleep { seconds: 3 });
    assert_eq!(t.last_error(), Some(TransferError::Incomplete { got: 999, want: 1000 }));
    assert_eq!(t.step(TransferEvent::BackoffElapsed), TransferAction::Stat);
    assert_eq!((t.attempt(), t.phase()), (2, Phase::CheckExisting));
}

#[test]
fn a_body_of_unknown_total_ends_in_success_at_any_size() {
    let mut t = fresh();
    t.step(TransferEvent::LocalSize { size: None });
    t.step(TransferEvent::Opened);
    assert_eq!(
        t.step(response(200, None, None)),
        TransferAction::Receive { buffer_bytes: MIB, stall_after_seconds: 300 }
    );
    assert_eq!(t.step(TransferEvent::Chunk { len: 70 }), QUIET_STORE);
    assert_eq!(t.step(TransferEvent::Chunk { len: 7 }), QUIET_STORE);
    assert_eq!(
        t.step(TransferEvent::StreamEnd),
        TransferAction::Finish { outcome: TransferOutcome::Success { final_size: 77 } }
    );
}

#[test]
fn bytes_beyond_the_total_are_not_taken() {
    let mut t = fetching(1000);
    t.step(TransferEvent::Chunk { len: 600 });
    assert_eq!(t.step(TransferEvent::Chunk { len: 401 }), TransferAction::Sleep { seconds: 3 });
    assert_eq!(t.bytes_written(), 600);
    assert_eq!(t.last_error(), Some(TransferError::Incomplete { got: 1001, want: 1000 }));
}

#[test]
fn a_total_below_the_local_size_fails_the_attempt() {
    let mut t = fresh();
    t.step(TransferEvent::LocalSize { size: Some(1000) });
    t.step(TransferEvent::Probed { remote_size: Some(900) });
    t.step(TransferEvent::Opened);
    assert_eq!(t.step(response(206, Some(0), Some(900))), TransferAction::Sleep { seconds: 3 });
    assert_eq!(t.last_error(), Some(TransferError::Incomplete { got: 1000, want: 900 }));
}

#[test]
fn a_stall_of_300_seconds_ends_the_attempt() {
    let mut t = fetching(1000);
    t.step(TransferEvent::Chunk { len: 10 });
    assert_eq!(
        t.step(TransferEvent::Idle { seconds: 299 }),
        TransferAction::Receive { buffer_bytes: MIB, stall_after_seconds: 300 }
    );
    assert_eq!(t.last_error(), None);
    assert_eq!(t.step(TransferEvent::Idle { seconds: 300 }), TransferAction::Sleep { seconds: 3 });
    assert_eq!(t.last_error(), Some(TransferError::Stall));

    let mut t = fetching(1000);
    assert_eq!(t.step(TransferEvent::Idle { seconds: u64::MAX }), TransferAction::Sleep { seconds: 3 });
    assert_eq!((t.phase(), t.last_error()), (Phase::Backoff, Some(TransferError::Stall)));
}

#[test]
fn a_broken_connection_is_a_network_error() {
    let mut t = fetching(1000);
    assert_eq!(t.step(TransferEvent::StreamFailed), TransferAction::Sleep { seconds: 3 });
    assert_eq!(t.last_error(), Some(TransferError::Network));
    let mut t = fresh();
    assert_eq!(fail_attempt(&mut t), TransferAction::Sleep { seconds: 3 });
    assert_eq!(t.last_error(), Some(TransferError::Network));
}

#[test]
fn an_error_of_the_file_system_is_not_retried() {
    let failed = TransferAction::Finish { outcome: TransferOutcome::Failed { cause: TransferError::Filesystem } };
    let mut t = fresh();
    t.step(TransferEvent::LocalSize { size: None });
    assert_eq!(t.step(TransferEvent::OpenFailed), failed);
    assert_eq!((t.attempt(), t.phase()), (1, Phase::Failed));

    let mut t = fetching(1000);
    t.step(TransferEvent::Chunk { len: 10 });
    assert_eq!(t.step(TransferEvent::WriteFailed), failed);
    assert_eq!(t.outcome(), Some(TransferOutcome::Failed { cause: TransferError::Filesystem }));
    assert!(!TransferError::Filesystem.retryable());
    assert!(TransferError::Network.retryable());
    assert!(TransferError::Stall.retryable());
    assert!(TransferError::HttpStatus { code: 500 }.retryable());
    assert!(TransferError::Incomplete { got: 1, want: 2 }.retryable());
}

#[test]
fn five_failed_attempts_fail_the_transfer_with_the_last_cause() {
    let mut t = fresh();
    for attempt in 1..=4u64 {
        assert_eq!(t.attempt() as u64, attempt);
        t.step(TransferEvent::LocalSize { size: None });
        t.step(TransferEvent::Opened);
        assert_eq!(
            t.step(response(500 + attempt as u16, None, None)),
            TransferAction::Sleep { seconds: 3 * attempt }
        );
        assert_eq!(t.outcome(), None);
        assert_eq!(t.step(TransferEvent::BackoffElapsed), TransferAction::Stat);
    }
    assert_eq!(t.attempt(), 5);
    t.step(TransferEvent::LocalSize { size: None });
    assert_eq!(t.step(TransferEvent::Opened), TransferAction::Get { range_from: None, send_timeout_seconds: 2400 });
    t.step(response(200, Some(10), None));
    let failed = TransferAction::Finish { outcome: TransferOutcome::Failed { cause: TransferError::Stall } };
    assert_eq!(t.step(TransferEvent::Idle { seconds: 300 }), failed);
    assert_eq!(t.outcome(), Some(TransferOutcome::Failed { cause: TransferError::Stall }));
    assert_eq!(t.step(TransferEvent::BackoffElapsed), failed);
    assert_eq!(t.step(TransferEvent::Chunk { len: 10 }), failed);
    assert_eq!(t.attempt(), 5);
}

#[test]
fn each_attempt_has_its_send_timeout() {
    let mut t = fresh();
    let mut seen = Vec::new();
    for _ in 0..5 {
        t.step(TransferEvent::LocalSize { size: None });
        match t.step(TransferEvent::Opened) {
            TransferAction::Get { send_timeout_seconds, .. } => seen.push(send_timeout_seconds),
            other => panic!("{:?}", other),
        }
        t.step(TransferEvent::SendFailed);
        t.step(TransferEvent::BackoffElapsed);
    }
    assert_eq!(seen, vec![600, 900, 1200, 1800, 2400]);
}

#[test]
fn a_later_attempt_checks_the_local_file_again() {
    let mut t = fetching(1000);
    t.step(TransferEvent::Chunk { len: 300 });
    t.step(TransferEvent::StreamFailed);
    assert_eq!(t.step(TransferEvent::BackoffElapsed), TransferAction::Stat);
    assert_eq!((t.bytes_written(), t.total_size_bytes(), t.resume_from()), (0, 0, 0));
    assert_eq!(t.step(TransferEvent::LocalSize { size: Some(300) }), TransferAction::Head { timeout_seconds: 10 });
    t.step(TransferEvent::Probed { remote_size: Some(1000) });
    assert_eq!(t.step(TransferEvent::Opened), TransferAction::Get { range_from: Some(300), send_timeout_seconds: 900 });
    assert_eq!(t.last_error(), Some(TransferError::Network));
}

#[test]
fn progress_is_reported_once_per_ten_percent_and_at_the_end() {
    let mut t = fetching(1000);
    let mut reports = Vec::new();
    for _ in 0..100 {
        match t.step(TransferEvent::Chunk { len: 10 }) {
            TransferAction::Store { progress: Some(p) } => reports.push(p.bytes_done),
            TransferAction::Store { progress: None } => {}
            other => panic!("{:?}", other),
        }
    }
    assert_eq!(reports, vec![100, 200, 300, 400, 500, 600, 700, 800, 900, 1000]);

    let mut t = fetching(1000);
    assert_eq!(t.step(TransferEvent::Chunk { len: 950 }), store(950, 1000));
    assert_eq!(t.step(TransferEvent::Chunk { len: 49 }), QUIET_STORE);
    assert_eq!(t.step(TransferEvent::Chunk { len: 1 }), store(1000, 1000));

    let mut t = fetching(1000);
    assert_eq!(t.step(TransferEvent::Chunk { len: 1000 }), store(1000, 1000));
    assert_eq!(t.step(TransferEvent::Chunk { len: 0 }), TransferAction::Receive { buffer_bytes: MIB, stall_after_seconds: 300 });
}

#[test]
fn bytes_in_place_never_shrink_and_never_pass_the_total() {
    let mut t = fetching(1000);
    let mut last = 0;
    for len in [1u64, 0, 250, 3, 0, 700, 46] {
        t.step(TransferEvent::Chunk { len });
        assert!(t.bytes_written() >= last && t.bytes_written() <= 1000);
        last = t.bytes_written();
    }
    assert_eq!(last, 1000);
}

#[test]
fn the_buffer_grows_with_the_file() {
    assert_eq!(buffer_size(0), MIB);
    assert_eq!(buffer_size(10 * MIB), MIB);
    assert_eq!(buffer_size(10 * MIB + 1), 8 * MIB);
    assert_eq!(buffer_size(100 * MIB), 8 * MIB);
    assert_eq!(buffer_size(100 * MIB + 1), 64 * MIB);
    assert_eq!(buffer_size(2048 * MIB), 64 * MIB);
    assert_eq!(buffer_size(4096 * MIB), 128 * MIB);
    assert_eq!(buffer_size(64 * 1024 * MIB), 2048 * MIB);
    assert_eq!(buffer_size(100 * 1024 * MIB), 2048 * MIB);
    assert_eq!(buffer_size(u64::MAX), 2048 * MIB);
    let mut t = fresh();
    t.step(TransferEvent::LocalSize { size: None });
    t.step(TransferEvent::Opened);
    assert_eq!(
        t.step(response(200, Some(500 * MIB), None)),
        TransferAction::Receive { buffer_bytes: 64 * MIB, stall_after_seconds: 300 }
    );
}

#[test]
fn percents_are_whole_and_cut_off() {
    assert_eq!(percent_done(0, 1000), 0);
    assert_eq!(percent_done(999, 1000), 99);
    assert_eq!(percent_done(1000, 1000), 100);
    assert_eq!(percent_done(1, 3), 33);
    assert_eq!(percent_done(5, 0), 0);
    assert_eq!(percent_done(u64::MAX, u64::MAX), 100);
    assert_eq!(percent_done(u64::MAX - 1, u64::MAX), 99);
}

#[test]
fn the_total_is_read_behind_the_last_stroke_of_content_range() {
    assert_eq!(content_range_total("bytes 100-200/500"), Some(500));
    assert_eq!(content_range_total("bytes 100-*/500"), Some(500));
    assert_eq!(content_range_total("bytes */500"), Some(500));
    assert_eq!(content_range_total("bytes 100-200/*"), None);
    assert_eq!(content_range_total("bytes 100-200"), None);
    assert_eq!(content_range_total("bytes 0-1/ 500"), None);
    assert_eq!(content_range_total("a/b/+7"), Some(7));
    assert_eq!(content_range_total("x/"), None);
    assert_eq!(content_range_total("x/18446744073709551616"), None);
    assert_eq!(response_event(206, Some(100), Some("bytes 400-499/500")), response(206, Some(100), Some(500)));
    assert_eq!(response_event(200, None, None), response(200, None, None));
    assert_eq!(response_event(206, Some(1), Some("junk")), response(206, Some(1), None));
}

#[test]
fn the_range_header_asks_for_everything_from_the_offset() {
    assert_eq!(range_header_value(0), "bytes=0-");
    assert_eq!(range_header_value(400), "bytes=400-");
    assert_eq!(range_header_value(u64::MAX), "bytes=18446744073709551615-");
}

#[test]
fn transfer_events_that_answer_nothing_change_nothing() {
    let mut t = fresh();
    for event in [TransferEvent::Opened, TransferEvent::StreamEnd, TransferEvent::Chunk { len: 5 }, TransferEvent::BackoffElapsed, TransferEvent::Idle { seconds: 900 }] {
        assert_eq!(t.step(event), TransferAction::Stat);
    }
    assert_eq!((t.phase(), t.attempt(), t.bytes_written()), (Phase::CheckExisting, 1, 0));
}

#[test]
fn the_limits_of_64_bits_are_told_before_a_step() {
    let mut t = fresh();
    t.step(TransferEvent::LocalSize { size: None });
    t.step(TransferEvent::Opened);
    t.step(response(200, None, None));
    t.step(TransferEvent::Chunk { len: u64::MAX - 5 });
    assert!(t.fits(&TransferEvent::Chunk { len: 5 }));
    assert!(!t.fits(&TransferEvent::Chunk { len: 6 }));
    assert!(t.fits(&TransferEvent::StreamEnd));

    let mut t = fresh();
    t.step(TransferEvent::LocalSize { size: Some(10) });
    t.step(TransferEvent::Probed { remote_size: None });
    t.step(TransferEvent::Opened);
    assert!(t.fits(&response(206, Some(u64::MAX - 10), None)));
    assert!(!t.fits(&response(206, Some(u64::MAX - 9), None)));
    assert!(t.fits(&response(206, Some(u64::MAX), Some(100))));
}
