use cnpj_sqlite::listing::DiscoveryError;
use cnpj_sqlite::orchestrator::{
    answer_from_lowered, answer_of, batch_ended, Orchestrator, Question, RunAction, RunEvent,
    RunOptions, RunPhase, RunStatus,
};
use cnpj_sqlite::report::{aggregate, file_name_of, FailedFile};
use cnpj_sqlite::transfer::{TransferError, TransferOutcome};

const ASK: RunOptions = RunOptions { auto_yes: false, quiet: false };
const YES: RunOptions = RunOptions { auto_yes: true, quiet: false };
const QUIET: RunOptions = RunOptions { auto_yes: false, quiet: true };

fn ok(size: u64) -> TransferOutcome {
    TransferOutcome::Success { final_size: size }
}

fn failed(cause: TransferError) -> TransferOutcome {
    TransferOutcome::Failed { cause }
}

fn chars(s: &str) -> Vec<char> {
    s.chars().collect()
}

#[test]
fn the_report_counts_successes_and_lists_failures_in_order() {
    let outcomes = vec![ok(1), failed(TransferError::Stall), ok(2), failed(TransferError::Network), ok(3)];
    let report = aggregate(&outcomes);
    assert_eq!(report.succeeded, 3);
    assert_eq!(
        report.failures,
        vec![
            FailedFile { index: 1, cause: TransferError::Stall },
            FailedFile { index: 3, cause: TransferError::Network },
        ]
    );
    assert_eq!(report.first_failure(), Some(FailedFile { index: 1, cause: TransferError::Stall }));
    assert_eq!(report.verdict(), Err(TransferError::Stall));
}

#[test]
fn a_batch_without_failures_is_a_success_with_its_count() {
    let report = aggregate(&vec![ok(1), ok(2)]);
    assert_eq!(report.first_failure(), None);
    assert_eq!(report.verdict(), Ok(2));
    assert_eq!(aggregate(&Vec::new()).verdict(), Ok(0));
}

#[test]
fn the_file_name_is_the_last_segment_of_the_url() {
    assert_eq!(file_name_of("https://host/dados/2024-11/Cnaes.zip"), "Cnaes.zip");
    assert_eq!(file_name_of("Cnaes.zip"), "Cnaes.zip");
    assert_eq!(file_name_of("https://host/dados/"), "");
    assert_eq!(file_name_of(""), "");
}

#[test]
fn a_run_asks_before_it_removes_and_before_it_downloads() {
    let mut run = Orchestrator::new(ASK);
    assert_eq!(run.pending_action(), RunAction::Prepare);
    assert_eq!(
        run.step(RunEvent::Prepared { existing: 4 }),
        RunAction::Ask { question: Question::RemoveExisting { count: 4 }, default_answer: false }
    );
    assert_eq!(run.step(RunEvent::Answered { yes: true }), RunAction::RemoveExisting);
    assert_eq!(run.step(RunEvent::Removed), RunAction::Discover);
    assert_eq!(
        run.step(RunEvent::Discovered { count: 37 }),
        RunAction::Ask { question: Question::Download { count: 37 }, default_answer: true }
    );
    assert_eq!(run.step(RunEvent::Answered { yes: true }), RunAction::Download);
    assert_eq!(run.phase, RunPhase::Downloading { count: 37 });
    assert_eq!(
        run.step(RunEvent::BatchEnded { succeeded: 37, failed: 0, first_cause: None }),
        RunAction::Exit { status: RunStatus::Completed { files: 37 } }
    );
}

#[test]
fn a_no_cancels_the_run_without_failure() {
    let mut run = Orchestrator::new(ASK);
    run.step(RunEvent::Prepared { existing: 4 });
    assert_eq!(run.step(RunEvent::Answered { yes: false }), RunAction::Exit { status: RunStatus::Cancelled });
    assert!(!RunStatus::Cancelled.failed());

    let mut run = Orchestrator::new(ASK);
    run.step(RunEvent::Prepared { existing: 0 });
    run.step(RunEvent::Discovered { count: 3 });
    assert_eq!(run.step(RunEvent::Answered { yes: false }), RunAction::Exit { status: RunStatus::Cancelled });
    assert_eq!(run.step(RunEvent::Answered { yes: true }), RunAction::Exit { status: RunStatus::Cancelled });
}

#[test]
fn yes_to_all_asks_nothing() {
    let mut run = Orchestrator::new(YES);
    assert_eq!(run.step(RunEvent::Prepared { existing: 4 }), RunAction::RemoveExisting);
    assert_eq!(run.step(RunEvent::Removed), RunAction::Discover);
    assert_eq!(run.step(RunEvent::Discovered { count: 3 }), RunAction::Download);
}

#[test]
fn a_quiet_run_takes_the_default_answers() {
    let mut run = Orchestrator::new(QUIET);
    assert_eq!(run.step(RunEvent::Prepared { existing: 4 }), RunAction::Exit { status: RunStatus::Cancelled });
    let mut run = Orchestrator::new(QUIET);
    assert_eq!(run.step(RunEvent::Prepared { existing: 0 }), RunAction::Discover);
    assert_eq!(run.step(RunEvent::Discovered { count: 3 }), RunAction::Download);
    assert!(Question::Download { count: 1 }.default());
    assert!(!Question::RemoveExisting { count: 1 }.default());
}

#[test]
fn a_failure_of_discovery_ends_the_run_before_any_download() {
    for error in [DiscoveryError::Unreachable, DiscoveryError::NoSnapshotFolder, DiscoveryError::NoFiles] {
        let mut run = Orchestrator::new(YES);
        run.step(RunEvent::Prepared { existing: 0 });
        let status = RunStatus::DiscoveryFailed { error };
        assert_eq!(run.step(RunEvent::DiscoveryFailed { error }), RunAction::Exit { status });
        assert!(status.failed());
    }
}

#[test]
fn a_failure_of_the_destination_ends_the_run() {
    let mut run = Orchestrator::new(YES);
    assert_eq!(run.step(RunEvent::DestinationFailed), RunAction::Exit { status: RunStatus::DestinationFailed });
    let mut run = Orchestrator::new(YES);
    run.step(RunEvent::Prepared { existing: 1 });
    assert_eq!(run.step(RunEvent::DestinationFailed), RunAction::Exit { status: RunStatus::DestinationFailed });
    assert!(RunStatus::DestinationFailed.failed());
}

#[test]
fn a_batch_with_failures_fails_the_run_with_the_first_cause() {
    let report = aggregate(&vec![ok(1), failed(TransferError::Incomplete { got: 1, want: 2 }), failed(TransferError::Stall)]);
    let event = batch_ended(&report);
    assert_eq!(
        event,
        RunEvent::BatchEnded { succeeded: 1, failed: 2, first_cause: Some(TransferError::Incomplete { got: 1, want: 2 }) }
    );
    let mut run = Orchestrator::new(YES);
    run.step(RunEvent::Prepared { existing: 0 });
    run.step(RunEvent::Discovered { count: 3 });
    let status = RunStatus::TransfersFailed { failed: 2, first_cause: TransferError::Incomplete { got: 1, want: 2 } };
    assert_eq!(run.step(event), RunAction::Exit { status });
    assert!(status.failed());
    assert!(!RunStatus::Completed { files: 3 }.failed());
}

#[test]
fn events_out_of_turn_change_nothing() {
    let mut run = Orchestrator::new(ASK);
    assert_eq!(run.step(RunEvent::Answered { yes: true }), RunAction::Prepare);
    assert_eq!(run.step(RunEvent::Discovered { count: 3 }), RunAction::Prepare);
    assert_eq!(run.step(RunEvent::BatchEnded { succeeded: 1, failed: 0, first_cause: None }), RunAction::Prepare);
    assert_eq!(run.phase, RunPhase::Preparing);
}

#[test]
fn typed_answers_are_read_in_any_case_and_with_space_around() {
    for yes in ["y", "s", "yes", "sim", "Y", "S", "YES", "Sim", "  yes \n", "\tSIM\r\n"] {
        assert!(answer_of(yes, false), "{:?}", yes);
    }
    for no in ["n", "no", "nao", "yes!", "ye", "si", "y e s", "0"] {
        assert!(!answer_of(no, true), "{:?}", no);
    }
    assert!(answer_of("", true));
    assert!(!answer_of("", false));
    assert!(answer_of(" \n", true));
    assert!(!answer_of("\n", false));
}

#[test]
fn a_lowered_answer_is_read_letter_by_letter() {
    assert!(answer_from_lowered(&chars("yes"), false));
    assert!(answer_from_lowered(&chars("sim"), false));
    assert!(!answer_from_lowered(&chars("YES"), true));
    assert!(!answer_from_lowered(&chars("yse"), true));
    assert!(!answer_from_lowered(&chars("sy"), true));
    assert!(answer_from_lowered(&chars(""), true));
}
