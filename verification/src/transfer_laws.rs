//! What holds of every transfer, whatever the outside work leads to.

use vstd::prelude::*;
use crate::decimal::{decimal_digits, is_digit, lemma_decimal_digits_round_trip};
use crate::retry::RetryPolicy;
use crate::text::last_position_of;
use crate::transfer::{
    lemma_next_keeps_wf, lemma_percent_bound, range_total_of, Phase, Progress, TransferAction,
    TransferError, TransferEvent, TransferModel, TransferOutcome, PROBE_TIMEOUT_SECONDS,
    PROGRESS_STEP_PERCENT, STALL_SECONDS,
};

verus! {

/// Within an attempt the bytes in place never become fewer, and they never
/// exceed the total once it is known.
pub proof fn lemma_bytes_in_place_only_grow(state: TransferModel, event: TransferEvent)
    requires
        state.wf(),
        state.within_limits(event),
        state.phase is Fetching,
    ensures
        state.next(event).phase is Fetching || state.next(event).phase is Done ==> {
            &&& state.bytes_written <= state.next(event).bytes_written
            &&& state.next(event).total_size_bytes == state.total_size_bytes
            &&& state.total_size_bytes > 0 ==> state.next(event).bytes_written
                <= state.total_size_bytes
        },
{
    lemma_next_keeps_wf(state, event);
}

/// A transfer succeeds only in three ways: the probe reports exactly the
/// size of the local file; the server answers 416 to the request; or the
/// body ends when the bytes in place make up the total, or no total is
/// known.
pub proof fn lemma_success_only_when_complete(state: TransferModel, event: TransferEvent)
    requires
        state.wf(),
        state.within_limits(event),
        !(state.phase is Done),
        state.next(event).phase is Done,
    ensures
        ({
            ||| state.phase is Probing && state.resume_from > 0 && event == (TransferEvent::Probed {
                remote_size: Some(state.resume_from),
            }) && state.next(event).bytes_written == state.resume_from
            ||| state.phase is Sending && event is Response && event->status == 416
                && state.next(event).bytes_written == state.resume_from
            ||| state.phase is Fetching && event is StreamEnd && (state.total_size_bytes == 0
                || state.bytes_written == state.total_size_bytes) && state.next(event).bytes_written
                == state.bytes_written
        }),
        state.next(event).outcome() == (TransferOutcome::Success {
            final_size: state.next(event).bytes_written,
        }),
{
}

/// A file that is complete is not fetched again: when the local file has
/// `size` bytes and the probe reports the same size, the transfer is done
/// after the probe, and neither opens the destination nor sends a
/// request nor stores a byte.
pub proof fn lemma_complete_file_is_not_fetched_again(state: TransferModel, size: u64)
    requires
        state.wf(),
        state.phase is CheckExisting,
        size > 0,
    ensures
        ({
            let found = TransferEvent::LocalSize { size: Some(size) };
            let same = TransferEvent::Probed { remote_size: Some(size) };
            &&& state.action_on(found) == (TransferAction::Head {
                timeout_seconds: PROBE_TIMEOUT_SECONDS,
            })
            &&& state.next(found).action_on(same) == (TransferAction::Finish {
                outcome: TransferOutcome::Success { final_size: size },
            })
            &&& state.next(found).next(same).phase is Done
        }),
{
}

/// A probe that fails, or reports another size, decides nothing: the
/// transfer goes on to resume the local file.
pub proof fn lemma_inconclusive_probe_resumes(state: TransferModel, remote_size: Option<u64>)
    requires
        state.wf(),
        state.phase is Probing,
        remote_size != Some(state.resume_from),
    ensures
        state.next(TransferEvent::Probed { remote_size }) == state.at(Phase::Opening),
        state.action_on(TransferEvent::Probed { remote_size }) == (TransferAction::Open {
            append: true,
        }),
{
}

/// The last position of a character that does not occur in `tail` is the
/// one between `head` and `tail`.
proof fn lemma_last_position_before_tail(head: Seq<char>, c: char, tail: Seq<char>)
    requires
        forall|k: int| 0 <= k < tail.len() ==> tail[k] != c,
    ensures
        last_position_of(head + seq![c] + tail, c) == Some(head.len() as int),
    decreases tail.len(),
{
    let whole = head + seq![c] + tail;
    if tail.len() == 0 {
        assert(whole.last() == c);
    } else {
        assert(whole.last() == tail.last());
        assert(whole.drop_last() == head + seq![c] + tail.drop_last());
        lemma_last_position_before_tail(head, c, tail.drop_last());
    }
}

/// The total of a `Content-Range` header is read for what it is: from a
/// header that ends in a `/` and the total written in base ten, such as
/// `bytes 100-200/500`, the total comes out, whatever stands before.
pub proof fn lemma_range_total_is_read(before: Seq<char>, total: u64)
    ensures
        range_total_of(before + seq!['/'] + decimal_digits(total as nat)) == Some(total),
{
    let digits = decimal_digits(total as nat);
    let header = before + seq!['/'] + digits;
    lemma_decimal_digits_round_trip(total as nat);
    assert forall|k: int| 0 <= k < digits.len() implies digits[k] != '/' by {
        assert(is_digit(digits[k]));
    }
    lemma_last_position_before_tail(before, '/', digits);
    assert(header.skip(before.len() as int + 1) == digits);
}

/// What the destination holds once `body` has been stored in it: `body`
/// behind what it held when it was opened to append, `body` alone when it
/// was opened anew.
pub open spec fn stored(append: bool, local: Seq<u8>, body: Seq<u8>) -> Seq<u8> {
    if append {
        local + body
    } else {
        body
    }
}

/// The body with which a server that honours `Range` answers a request
/// for the file `remote`: all of it, or what stands from the offset on.
pub open spec fn served(remote: Seq<u8>, range_from: Option<u64>) -> Seq<u8> {
    match range_from {
        Some(offset) => remote.skip(offset as int),
        None => remote,
    }
}

/// The way of opening and the range that the machine names go together:
/// where the local file holds the first bytes of the remote file, what the
/// destination holds after the whole answer of a server that honours
/// `Range` is the remote file, byte for byte, be the transfer resumed or
/// begun afresh.
pub proof fn lemma_resumed_file_is_the_remote_file(
    state: TransferModel,
    local: Seq<u8>,
    remote: Seq<u8>,
)
    requires
        state.resume_from == local.len(),
        local.len() <= remote.len(),
        local == remote.take(local.len() as int),
    ensures
        state.at(Phase::Opening).pending() is Open,
        state.at(Phase::Sending).pending() is Get,
        stored(
            state.at(Phase::Opening).pending()->append,
            local,
            served(remote, state.at(Phase::Sending).pending()->range_from),
        ) == remote,
{
    if state.resume_from > 0 {
        assert(remote.take(local.len() as int) + remote.skip(local.len() as int) =~= remote);
    }
}

/// The sum of the lengths of `chunks`.
pub open spec fn total_length(chunks: Seq<u64>) -> nat
    decreases chunks.len(),
{
    if chunks.len() == 0 {
        0
    } else {
        total_length(chunks.drop_last()) + chunks.last() as nat
    }
}

/// The state after the chunks of the lengths `chunks` have arrived one
/// after the other.
pub open spec fn after_chunks(state: TransferModel, chunks: Seq<u64>) -> TransferModel
    decreases chunks.len(),
{
    if chunks.len() == 0 {
        state
    } else {
        after_chunks(state, chunks.drop_last()).next(TransferEvent::Chunk { len: chunks.last() })
    }
}

/// Chunks that stay within the total are all taken and counted.
pub proof fn lemma_chunks_are_counted(state: TransferModel, chunks: Seq<u64>)
    requires
        state.wf(),
        state.phase is Fetching,
        state.total_size_bytes > 0,
        state.bytes_written + total_length(chunks) <= state.total_size_bytes,
    ensures
        after_chunks(state, chunks).wf(),
        after_chunks(state, chunks).phase is Fetching,
        after_chunks(state, chunks).bytes_written == state.bytes_written + total_length(chunks),
        after_chunks(state, chunks).total_size_bytes == state.total_size_bytes,
        after_chunks(state, chunks).resume_from == state.resume_from,
        after_chunks(state, chunks).attempt == state.attempt,
    decreases chunks.len(),
{
    if chunks.len() > 0 {
        lemma_chunks_are_counted(state, chunks.drop_last());
        let before = after_chunks(state, chunks.drop_last());
        let event = TransferEvent::Chunk { len: chunks.last() };
        lemma_next_keeps_wf(before, event);
    }
}

/// A resumed transfer is complete exactly when the missing bytes have
/// arrived: from the offset `S` up to the total `T` that the response
/// tells, a body of `T - S` bytes ends in success at `T` bytes, and a
/// shorter one fails the attempt as incomplete.
pub proof fn lemma_resume_completes_at_the_total(
    state: TransferModel,
    response: TransferEvent,
    chunks: Seq<u64>,
)
    requires
        state.wf(),
        state.phase is Sending,
        state.within_limits(response),
        response is Response,
        response->status == 200 || response->status == 206,
        state.total_told(response->content_length, response->range_total) > 0,
        state.resume_from + total_length(chunks) <= state.total_told(
            response->content_length,
            response->range_total,
        ),
    ensures
        ({
            let total = state.total_told(response->content_length, response->range_total);
            let end = after_chunks(state.next(response), chunks).next(TransferEvent::StreamEnd);
            if state.resume_from + total_length(chunks) == total {
                end.phase is Done && end.outcome() == (TransferOutcome::Success {
                    final_size: total as u64,
                })
            } else {
                end.last_error == Some(
                    TransferError::Incomplete {
                        got: (state.resume_from + total_length(chunks)) as u64,
                        want: total as u64,
                    },
                ) && (end.phase is Backoff || end.phase is Failed)
            }
        }),
{
    let fetching = state.next(response);
    lemma_next_keeps_wf(state, response);
    lemma_chunks_are_counted(fetching, chunks);
}

/// Progress is reported in steps of ten percent and at the end: a chunk
/// that is stored leads to a report only where the total is known, and
/// each report lies ten percent or more above the one before, so that an
/// attempt reports no more than ten times; the chunk that completes the
/// file always leads to one.
pub proof fn lemma_progress_in_steps_of_ten(state: TransferModel, len: u64)
    requires
        state.wf(),
        state.phase is Fetching,
        state.within_limits(TransferEvent::Chunk { len }),
    ensures
        ({
            let event = TransferEvent::Chunk { len };
            let after = state.next(event);
            let reported = state.action_on(event) is Store && state.action_on(event)->progress
                is Some;
            &&& reported ==> {
                &&& state.total_size_bytes > 0
                &&& state.last_percent + PROGRESS_STEP_PERCENT <= after.last_percent <= 100
                &&& state.action_on(event)->progress == Some(
                    Progress {
                        bytes_done: after.bytes_written,
                        bytes_total: state.total_size_bytes,
                    },
                )
            }
            &&& !reported ==> after.last_percent == state.last_percent
            &&& len > 0 && state.total_size_bytes > 0 && state.bytes_written + len
                == state.total_size_bytes ==> reported && after.bytes_written
                == state.total_size_bytes
        }),
{
    let event = TransferEvent::Chunk { len };
    let after = state.next(event);
    let done = (state.bytes_written + len) as u64;
    lemma_next_keeps_wf(state, event);
    lemma_percent_bound(state.bytes_written, state.total_size_bytes);
    if len > 0 && !(state.total_size_bytes > 0 && done > state.total_size_bytes) {
        lemma_percent_bound(done, state.total_size_bytes);
    }
}

/// A stall ends the attempt: after `STALL_SECONDS` without data the
/// attempt has failed with `Stall`, and either a pause and a further
/// attempt follow or the transfer has failed. A shorter silence changes
/// nothing, and the machine goes on receiving.
pub proof fn lemma_stall_ends_the_attempt(state: TransferModel, seconds: u64)
    requires
        state.wf(),
        state.phase is Fetching,
    ensures
        seconds >= STALL_SECONDS ==> {
            let after = state.next(TransferEvent::Idle { seconds });
            &&& after == state.failed_attempt(TransferError::Stall)
            &&& after.last_error == Some(TransferError::Stall)
            &&& after.phase is Backoff || after.phase is Failed
            &&& state.action_on(TransferEvent::Idle { seconds }) is Sleep || state.action_on(
                TransferEvent::Idle { seconds },
            ) == (TransferAction::Finish {
                outcome: TransferOutcome::Failed { cause: TransferError::Stall },
            })
        },
        seconds < STALL_SECONDS ==> {
            &&& state.next(TransferEvent::Idle { seconds }) == state
            &&& state.action_on(TransferEvent::Idle { seconds }) == state.pending()
            &&& state.pending() is Receive
        },
{
}

/// The error with which `event` fails an attempt that stands at `state`,
/// if it does.
pub open spec fn failure_of(state: TransferModel, event: TransferEvent) -> Option<TransferError> {
    let after = state.next(event);
    if !state.is_terminal() && !(state.phase is Backoff) && (after.phase is Backoff
        || after.phase is Failed) {
        after.last_error
    } else {
        None
    }
}

/// A failed attempt is followed by a pause and a further attempt as long
/// as an attempt is left and the file system is not at fault; the transfer
/// fails only at the last attempt or on an error of the file system, and
/// then with the error of that very attempt.
pub proof fn lemma_failure_is_final_only_at_the_end(state: TransferModel, event: TransferEvent)
    requires
        state.wf(),
        state.within_limits(event),
        failure_of(state, event) is Some,
    ensures
        ({
            let error = failure_of(state, event)->0;
            let after = state.next(event);
            let policy = RetryPolicy::transfer_policy();
            &&& after == TransferModel { phase: after.phase, last_error: Some(error), ..state }
            &&& after.phase is Failed <==> !error.is_retryable() || state.attempt
                == policy.max_attempts
            &&& after.phase is Failed ==> state.action_on(event) == (TransferAction::Finish {
                outcome: TransferOutcome::Failed { cause: error },
            })
            &&& after.phase is Backoff ==> {
                &&& state.action_on(event) == (TransferAction::Sleep {
                    seconds: (3 * state.attempt) as u64,
                })
                &&& after.next(TransferEvent::BackoffElapsed).phase is CheckExisting
                &&& after.next(TransferEvent::BackoffElapsed).attempt == state.attempt + 1
                &&& after.next(TransferEvent::BackoffElapsed).last_error == Some(error)
                &&& after.action_on(TransferEvent::BackoffElapsed) == TransferAction::Stat
            }
        }),
{
    let after = state.next(event);
    assert(state.attempt * 3 == 3 * state.attempt) by (nonlinear_arith);
}

/// The state after one attempt after the other has failed with the errors
/// `errors`, each followed by its pause while one follows.
pub open spec fn after_failed_attempts(
    state: TransferModel,
    errors: Seq<TransferError>,
) -> TransferModel
    decreases errors.len(),
{
    if errors.len() == 0 {
        state
    } else {
        let failed = state.failed_attempt(errors[0]);
        if failed.phase is Backoff {
            after_failed_attempts(failed.next(TransferEvent::BackoffElapsed), errors.drop_first())
        } else {
            failed
        }
    }
}

/// Retry exhaustion: a transfer whose every attempt fails with a
/// retryable error stands, after fewer failures than attempts, at the
/// start of the next attempt; after as many failures as there are
/// attempts it has failed, with the error of the last attempt as its
/// cause.
pub proof fn lemma_retry_exhaustion(state: TransferModel, errors: Seq<TransferError>)
    requires
        state.wf(),
        !state.is_terminal(),
        !(state.phase is Backoff),
        errors.len() >= 1,
        state.attempt + errors.len() - 1 <= RetryPolicy::transfer_policy().max_attempts,
        forall|i: int| 0 <= i < errors.len() ==> (#[trigger] errors[i]).is_retryable(),
    ensures
        ({
            let end = after_failed_attempts(state, errors);
            let policy = RetryPolicy::transfer_policy();
            &&& end.last_error == Some(errors.last())
            &&& if state.attempt + errors.len() - 1 == policy.max_attempts {
                end.phase is Failed && end.outcome() == (TransferOutcome::Failed {
                    cause: errors.last(),
                })
            } else {
                end.phase is CheckExisting && end.attempt == state.attempt + errors.len()
            }
        }),
    decreases errors.len(),
{
    let failed = state.failed_attempt(errors[0]);
    assert(errors[0].is_retryable());
    if failed.phase is Backoff {
        let fresh = failed.next(TransferEvent::BackoffElapsed);
        let rest = errors.drop_first();
        if rest.len() > 0 {
            assert forall|i: int| 0 <= i < rest.len() implies (#[trigger] rest[i]).is_retryable() by {
                assert(rest[i] == errors[i + 1]);
            }
            lemma_retry_exhaustion(fresh, rest);
            assert(rest.last() == errors.last());
        } else {
            assert(errors.last() == errors[0]);
        }
    } else {
        assert(state.attempt == RetryPolicy::transfer_policy().max_attempts);
        assert(errors.len() == 1);
    }
}

/// The outcome of a transfer is final: once it is over, no event changes
/// its state, and the action stays to finish with the same outcome.
pub proof fn lemma_outcome_is_final(state: TransferModel, event: TransferEvent)
    requires
        state.is_terminal(),
    ensures
        state.next(event) == state,
        state.action_on(event) == (TransferAction::Finish { outcome: state.outcome() }),
{
}

} // verus!
