//! The transfer of one file, as a state machine.
//!
//! The machine decides; the caller does the outside work. It starts in
//! `CheckExisting` and names an action. The caller performs the action and
//! reports what came of it as an event; `step` takes the event, moves on
//! and names the next action, until the action is `Finish`.
//!
//! One attempt runs `CheckExisting`, then `Probing` (when a local file
//! exists), `Opening`, `Sending`, `Fetching`. An attempt that fails is
//! followed by `Backoff` and a further attempt, which starts at
//! `CheckExisting` again, since the local file may have grown.

use vstd::prelude::*;
use crate::decimal::{decimal_digits, format_u64, parse_u64, parsed_u64};
use crate::retry::{send_timeout, send_timeout_seconds, RetryDecision, RetryPolicy};
use crate::size::MIB;
use crate::text::{chars_of, joined, last_position_of, lemma_last_position_of, rfind, slice_of, string_of};

verus! {

/// The seconds that the probe of the remote size may take.
pub const PROBE_TIMEOUT_SECONDS: u64 = 10;

/// The seconds without data after which an attempt counts as stalled.
pub const STALL_SECONDS: u64 = 300;

/// The steps of percent between two reports of progress.
pub const PROGRESS_STEP_PERCENT: u64 = 10;

/// Why an attempt, or a whole transfer, failed.
#[derive(Clone, Copy, Debug, PartialEq, Eq, Structural)]
pub enum TransferError {
    /// The server answered with a status other than 200, 206 and 416.
    HttpStatus { code: u16 },
    /// The request could not be sent, was not answered in time, or the
    /// connection broke while the body was read.
    Network,
    /// No data arrived for `STALL_SECONDS`.
    Stall,
    /// The body ended, or went on, at another size than the total.
    Incomplete { got: u64, want: u64 },
    /// The destination could not be opened or written.
    Filesystem,
}

impl TransferError {
    /// Whether a further attempt may follow this error. An error of the
    /// file system ends the transfer at once.
    pub open spec fn is_retryable(self) -> bool {
        !(self is Filesystem)
    }

    /// Whether a further attempt may follow this error.
    pub fn retryable(&self) -> (b: bool)
        ensures
            b == self.is_retryable(),
    {
        match self {
            TransferError::Filesystem => false,
            _ => true,
        }
    }
}

/// How the transfer of one file ended.
#[derive(Clone, Copy, Debug, PartialEq, Eq, Structural)]
pub enum TransferOutcome {
    Success { final_size: u64 },
    Failed { cause: TransferError },
}

/// Where a transfer stands.
#[derive(Clone, Copy, Debug, PartialEq, Eq, Structural)]
pub enum Phase {
    /// The size of the local file is being looked up.
    CheckExisting,
    /// A local file exists; the remote size is being probed.
    Probing,
    /// The destination is being opened: to append when resuming, else anew.
    Opening,
    /// The request is being sent.
    Sending,
    /// The body is being received and stored.
    Fetching,
    /// The pause after a failed attempt.
    Backoff,
    /// The file is complete.
    Done,
    /// The transfer was given up.
    Failed,
}

/// What the outside work led to.
#[derive(Clone, Copy, Debug, PartialEq, Eq, Structural)]
pub enum TransferEvent {
    /// The size of the local file, none where there is no file.
    LocalSize { size: Option<u64> },
    /// The remote size that the probe reported, none where the probe
    /// failed, timed out or reported no size.
    Probed { remote_size: Option<u64> },
    /// The destination is open.
    Opened,
    /// The destination could not be opened.
    OpenFailed,
    /// The response's status, its content length, and the total that its
    /// `Content-Range` names, each where present.
    Response { status: u16, content_length: Option<u64>, range_total: Option<u64> },
    /// The request failed or was not answered within its timeout.
    SendFailed,
    /// A chunk of the body has arrived.
    Chunk { len: u64 },
    /// No data has arrived for this many seconds.
    Idle { seconds: u64 },
    /// The connection broke while the body was read.
    StreamFailed,
    /// A chunk could not be written.
    WriteFailed,
    /// The body has ended.
    StreamEnd,
    /// The pause is over.
    BackoffElapsed,
}

/// A report of progress.
#[derive(Clone, Copy, Debug, PartialEq, Eq, Structural)]
pub struct Progress {
    pub bytes_done: u64,
    pub bytes_total: u64,
}

/// The outside work that the machine asks for.
#[derive(Clone, Copy, Debug, PartialEq, Eq, Structural)]
pub enum TransferAction {
    /// Look up the size of the local file; answer with `LocalSize`.
    Stat,
    /// Probe the remote size within the timeout; answer with `Probed`.
    Head { timeout_seconds: u64 },
    /// Open the destination, to append or else to create or truncate;
    /// answer with `Opened` or `OpenFailed`.
    Open { append: bool },
    /// Send the request, with a `Range` from the given offset if there is
    /// one; answer with `Response` or `SendFailed`.
    Get { range_from: Option<u64>, send_timeout_seconds: u64 },
    /// Receive the body through a buffer of the given capacity; answer with
    /// `Chunk`, `StreamEnd`, `StreamFailed`, or `Idle` after so many
    /// seconds without data.
    Receive { buffer_bytes: u64, stall_after_seconds: u64 },
    /// Write the chunk just reported, report the progress if there is one,
    /// and go on receiving; answer as for `Receive`, or with `WriteFailed`.
    Store { progress: Option<Progress> },
    /// Wait; answer with `BackoffElapsed`.
    Sleep { seconds: u64 },
    /// The transfer is over.
    Finish { outcome: TransferOutcome },
}

/// The part of a transfer's state that the decisions depend on.
#[derive(Clone, Copy, Debug, PartialEq, Eq, Structural)]
pub struct TransferModel {
    pub phase: Phase,
    /// The attempt under way, from 1.
    pub attempt: u32,
    /// The size of the local file when the attempt began; the offset from
    /// which the attempt resumes, 0 where it starts afresh.
    pub resume_from: u64,
    /// The bytes of the file that are in place.
    pub bytes_written: u64,
    /// The size of the whole file, 0 while it is not known.
    pub total_size_bytes: u64,
    /// The percentage, a multiple of ten, at which progress was last
    /// reported.
    pub last_percent: u64,
    /// The error of the last failed attempt.
    pub last_error: Option<TransferError>,
}

/// The state of the transfer of one file, owned by the worker that runs
/// it. Made by `new`, moved on by `step`.
#[derive(Debug)]
pub struct TransferState {
    local_path: String,
    phase: Phase,
    attempt: u32,
    resume_from: u64,
    bytes_written: u64,
    total_size_bytes: u64,
    last_percent: u64,
    last_error: Option<TransferError>,
}

impl View for TransferState {
    type V = TransferModel;

    closed spec fn view(&self) -> TransferModel {
        TransferModel {
            phase: self.phase,
            attempt: self.attempt,
            resume_from: self.resume_from,
            bytes_written: self.bytes_written,
            total_size_bytes: self.total_size_bytes,
            last_percent: self.last_percent,
            last_error: self.last_error,
        }
    }
}

/// The status codes with which a transfer goes on: full content, partial
/// content, and range not satisfiable.
pub open spec fn is_accepted_status(status: u16) -> bool {
    status == 200 || status == 206 || status == 416
}

/// Whether a transfer goes on with `status`.
pub fn accepts_status(status: u16) -> (b: bool)
    ensures
        b == is_accepted_status(status),
{
    status == 200 || status == 206 || status == 416
}

/// The capacity of the write buffer for a file of `total` bytes: 1 MiB up
/// to 10 MiB, 8 MiB up to 100 MiB, and beyond that one 32nd of the file,
/// but no less than 64 MiB and no more than 2 GiB.
pub open spec fn buffer_capacity(total: u64) -> u64 {
    if total > 100 * MIB {
        if total / 32 < 64 * MIB {
            (64 * MIB) as u64
        } else if total / 32 > 2048 * MIB {
            (2048 * MIB) as u64
        } else {
            total / 32
        }
    } else if total > 10 * MIB {
        (8 * MIB) as u64
    } else {
        MIB
    }
}

/// The capacity of the write buffer for a file of `total` bytes.
pub fn buffer_size(total: u64) -> (capacity: u64)
    ensures
        capacity == buffer_capacity(total),
        MIB <= capacity <= 2048 * MIB,
{
    if total > 100 * MIB {
        let share = total / 32;
        if share < 64 * MIB {
            64 * MIB
        } else if share > 2048 * MIB {
            2048 * MIB
        } else {
            share
        }
    } else if total > 10 * MIB {
        8 * MIB
    } else {
        MIB
    }
}

/// The whole percents of `total` that `done` makes; 0 while the total is
/// not known.
pub open spec fn percent_of(done: u64, total: u64) -> nat {
    if total > 0 {
        (done * 100 / total as int) as nat
    } else {
        0
    }
}

/// The multiple of ten at or below `percent`.
pub open spec fn decile(percent: nat) -> nat {
    (percent / 10 * 10) as nat
}

/// The whole percents of `total` that `done` makes.
pub fn percent_done(done: u64, total: u64) -> (percent: u64)
    requires
        total > 0 ==> done <= total,
    ensures
        percent == percent_of(done, total),
        percent <= 100,
{
    if total > 0 {
        let scaled: u128 = done as u128 * 100;
        assert(done * 100 / total as int <= 100) by (nonlinear_arith)
            requires
                0 <= done <= total,
                total > 0,
        ;
        (scaled / total as u128) as u64
    } else {
        0
    }
}

/// The total that a `Content-Range` header names: the number behind its
/// last `/`, where it has one and a number stands there.
pub open spec fn range_total_of(header: Seq<char>) -> Option<u64> {
    match last_position_of(header, '/') {
        Some(p) => parsed_u64(header.skip(p + 1)),
        None => None,
    }
}

/// The total that the `Content-Range` header `header` names.
pub fn content_range_total(header: &str) -> (total: Option<u64>)
    ensures
        total == range_total_of(header@),
{
    let text = chars_of(header);
    match rfind(&text, '/') {
        Some(p) => {
            proof {
                lemma_last_position_of(text@, '/');
            }
            let tail = slice_of(&text, p + 1, text.len());
            assert(tail@ == text@.skip(p + 1));
            parse_u64(&tail)
        },
        None => None,
    }
}

/// The value of the `Range` header that asks for everything from `offset`
/// on: `bytes=<offset>-`.
pub open spec fn range_header(offset: u64) -> Seq<char> {
    seq!['b', 'y', 't', 'e', 's', '='] + decimal_digits(offset as nat) + seq!['-']
}

/// The value of the `Range` header that asks for everything from `offset`
/// on.
pub fn range_header_value(offset: u64) -> (value: String)
    ensures
        value@ == range_header(offset),
{
    let unit: Vec<char> = vec!['b', 'y', 't', 'e', 's', '='];
    let dash: Vec<char> = vec!['-'];
    assert(unit@ =~= seq!['b', 'y', 't', 'e', 's', '=']);
    assert(dash@ =~= seq!['-']);
    string_of(&joined(&joined(&unit, &format_u64(offset)), &dash))
}

/// The event that a response stands for: its status, its content length,
/// and the total that its `Content-Range` header names.
pub fn response_event(status: u16, content_length: Option<u64>, content_range: Option<&str>) -> (event:
    TransferEvent)
    ensures
        event == (TransferEvent::Response {
            status,
            content_length,
            range_total: match content_range {
                Some(header) => range_total_of(header@),
                None => None,
            },
        }),
{
    let range_total = match content_range {
        Some(header) => content_range_total(header),
        None => None,
    };
    TransferEvent::Response { status, content_length, range_total }
}

impl TransferModel {
    /// The state in which every transfer begins.
    pub open spec fn initial() -> TransferModel {
        TransferModel {
            phase: Phase::CheckExisting,
            attempt: 1,
            resume_from: 0,
            bytes_written: 0,
            total_size_bytes: 0,
            last_percent: 0,
            last_error: None,
        }
    }

    /// What holds of every state that `initial` and `next` lead to.
    pub open spec fn wf(self) -> bool {
        &&& 1 <= self.attempt <= RetryPolicy::transfer_policy().max_attempts
        &&& self.phase is Backoff ==> self.attempt < RetryPolicy::transfer_policy().max_attempts
        &&& self.phase is Backoff || self.phase is Failed ==> self.last_error is Some
        &&& self.phase is Probing ==> self.resume_from > 0
        &&& self.phase is Fetching ==> {
            &&& self.resume_from <= self.bytes_written
            &&& self.total_size_bytes > 0 ==> self.bytes_written <= self.total_size_bytes
            &&& self.last_percent % 10 == 0
            &&& self.last_percent <= percent_of(self.bytes_written, self.total_size_bytes)
        }
    }

    /// Whether the transfer is over.
    pub open spec fn is_terminal(self) -> bool {
        self.phase is Done || self.phase is Failed
    }

    /// The outcome of a transfer that is over.
    pub open spec fn outcome(self) -> TransferOutcome {
        if self.phase is Done {
            TransferOutcome::Success { final_size: self.bytes_written }
        } else {
            TransferOutcome::Failed {
                cause: match self.last_error {
                    Some(e) => e,
                    None => TransferError::Network,
                },
            }
        }
    }

    /// Whether this attempt continues a local file.
    pub open spec fn resumes(self) -> bool {
        self.resume_from > 0
    }

    /// The action that the state waits for: what `step` named last.
    pub open spec fn pending(self) -> TransferAction {
        match self.phase {
            Phase::CheckExisting => TransferAction::Stat,
            Phase::Probing => TransferAction::Head { timeout_seconds: PROBE_TIMEOUT_SECONDS },
            Phase::Opening => TransferAction::Open { append: self.resumes() },
            Phase::Sending => TransferAction::Get {
                range_from: if self.resumes() {
                    Some(self.resume_from)
                } else {
                    None
                },
                send_timeout_seconds: send_timeout(self.attempt),
            },
            Phase::Fetching => TransferAction::Receive {
                buffer_bytes: buffer_capacity(self.total_size_bytes),
                stall_after_seconds: STALL_SECONDS,
            },
            Phase::Backoff => TransferAction::Sleep {
                seconds: RetryPolicy::transfer_policy().backoff(self.attempt) as u64,
            },
            Phase::Done => TransferAction::Finish { outcome: self.outcome() },
            Phase::Failed => TransferAction::Finish { outcome: self.outcome() },
        }
    }

    /// The state moved to `phase`.
    pub open spec fn at(self, phase: Phase) -> TransferModel {
        TransferModel { phase, ..self }
    }

    /// The state after the attempt under way has failed with `error`: the
    /// error is recorded; a pause follows while the error is retryable and
    /// an attempt is left, else the transfer has failed.
    pub open spec fn failed_attempt(self, error: TransferError) -> TransferModel {
        let recorded = TransferModel { last_error: Some(error), ..self };
        if error.is_retryable() && RetryPolicy::transfer_policy().decision(self.attempt)
            is RetryAfter {
            recorded.at(Phase::Backoff)
        } else {
            recorded.at(Phase::Failed)
        }
    }

    /// The state at the start of the attempt that follows the pause.
    pub open spec fn next_attempt(self) -> TransferModel {
        TransferModel {
            phase: Phase::CheckExisting,
            attempt: (self.attempt + 1) as u32,
            resume_from: 0,
            bytes_written: 0,
            total_size_bytes: 0,
            last_percent: 0,
            ..self
        }
    }

    /// The state in which the file is complete at `size` bytes.
    pub open spec fn completed(self, size: u64) -> TransferModel {
        TransferModel { phase: Phase::Done, bytes_written: size, total_size_bytes: size, ..self }
    }

    /// The total size that an accepted response tells: when resuming, the
    /// total of its `Content-Range`, or else its content length on top of
    /// the offset; when starting afresh, its content length. A content
    /// length that is not there counts 0.
    pub open spec fn total_told(self, content_length: Option<u64>, range_total: Option<u64>) -> nat {
        let length: nat = match content_length {
            Some(n) => n as nat,
            None => 0,
        };
        if self.resumes() {
            match range_total {
                Some(t) => t as nat,
                None => length + self.resume_from as nat,
            }
        } else {
            length
        }
    }

    /// The state after a response with status 200 or 206 that tells the
    /// total `total`: the body is received on top of the offset. A total
    /// that is known and smaller than the offset fails the attempt.
    pub open spec fn receiving(self, total: u64) -> TransferModel {
        if total > 0 && self.resume_from > total {
            self.failed_attempt(TransferError::Incomplete { got: self.resume_from, want: total })
        } else {
            TransferModel {
                phase: Phase::Fetching,
                bytes_written: self.resume_from,
                total_size_bytes: total,
                last_percent: decile(percent_of(self.resume_from, total)) as u64,
                ..self
            }
        }
    }

    /// Whether progress is reported once a chunk has brought the bytes in
    /// place to `done`: at the first chunk that reaches a percentage ten
    /// or more above the last one reported, and at the chunk that
    /// completes the file.
    pub open spec fn reports_at(self, done: u64) -> bool {
        ||| percent_of(done, self.total_size_bytes) >= self.last_percent + PROGRESS_STEP_PERCENT
        ||| done == self.total_size_bytes
    }

    /// The state after a chunk of `len` bytes has arrived while fetching.
    /// A chunk that holds nothing changes nothing. One that leads beyond a
    /// known total fails the attempt.
    pub open spec fn received(self, len: u64) -> TransferModel {
        let done = (self.bytes_written + len) as u64;
        if len == 0 {
            self
        } else if self.total_size_bytes > 0 && done > self.total_size_bytes {
            self.failed_attempt(TransferError::Incomplete { got: done, want: self.total_size_bytes })
        } else if self.reports_at(done) {
            TransferModel {
                bytes_written: done,
                last_percent: decile(percent_of(done, self.total_size_bytes)) as u64,
                ..self
            }
        } else {
            TransferModel { bytes_written: done, ..self }
        }
    }

    /// The state after the body has ended: the file is complete if the
    /// total is not known or the bytes in place make it up; else the
    /// attempt has failed.
    pub open spec fn verified(self) -> TransferModel {
        if self.total_size_bytes == 0 || self.bytes_written == self.total_size_bytes {
            self.at(Phase::Done)
        } else {
            self.failed_attempt(
                TransferError::Incomplete { got: self.bytes_written, want: self.total_size_bytes },
            )
        }
    }

    /// The sums that a step forms fit in 64 bits: the bytes in place with
    /// a chunk, and a content length with the offset.
    pub open spec fn within_limits(self, event: TransferEvent) -> bool {
        match event {
            TransferEvent::Chunk { len } => self.phase is Fetching ==> self.bytes_written + len
                <= u64::MAX,
            TransferEvent::Response { status, content_length, range_total } => self.phase is Sending
                ==> self.total_told(content_length, range_total) <= u64::MAX,
            _ => true,
        }
    }

    /// The state that follows `self` on `event`. An event that does not
    /// answer the pending action leaves the state as it is.
    pub open spec fn next(self, event: TransferEvent) -> TransferModel {
        match (self.phase, event) {
            (Phase::CheckExisting, TransferEvent::LocalSize { size }) => match size {
                Some(n) => if n > 0 {
                    TransferModel { phase: Phase::Probing, resume_from: n, ..self }
                } else {
                    TransferModel { phase: Phase::Opening, resume_from: 0, ..self }
                },
                None => TransferModel { phase: Phase::Opening, resume_from: 0, ..self },
            },
            (Phase::Probing, TransferEvent::Probed { remote_size }) => {
                if remote_size == Some(self.resume_from) {
                    self.completed(self.resume_from)
                } else {
                    self.at(Phase::Opening)
                }
            },
            (Phase::Opening, TransferEvent::Opened) => self.at(Phase::Sending),
            (Phase::Opening, TransferEvent::OpenFailed) => self.failed_attempt(
                TransferError::Filesystem,
            ),
            (Phase::Sending, TransferEvent::Response { status, content_length, range_total }) => {
                if status == 416 {
                    self.completed(self.resume_from)
                } else if is_accepted_status(status) {
                    self.receiving(self.total_told(content_length, range_total) as u64)
                } else {
                    self.failed_attempt(TransferError::HttpStatus { code: status })
                }
            },
            (Phase::Sending, TransferEvent::SendFailed) => self.failed_attempt(TransferError::Network),
            (Phase::Fetching, TransferEvent::Chunk { len }) => self.received(len),
            (Phase::Fetching, TransferEvent::Idle { seconds }) => {
                if seconds >= STALL_SECONDS {
                    self.failed_attempt(TransferError::Stall)
                } else {
                    self
                }
            },
            (Phase::Fetching, TransferEvent::StreamFailed) => self.failed_attempt(
                TransferError::Network,
            ),
            (Phase::Fetching, TransferEvent::WriteFailed) => self.failed_attempt(
                TransferError::Filesystem,
            ),
            (Phase::Fetching, TransferEvent::StreamEnd) => self.verified(),
            (Phase::Backoff, TransferEvent::BackoffElapsed) => self.next_attempt(),
            _ => self,
        }
    }

    /// The action that `step` names on `event`: to store the chunk where
    /// the event is a chunk that is taken, with the progress to report if
    /// any; else the action that the new state waits for.
    pub open spec fn action_on(self, event: TransferEvent) -> TransferAction {
        let after = self.next(event);
        match (self.phase, event) {
            (Phase::Fetching, TransferEvent::Chunk { len }) => {
                if after.phase is Fetching && len > 0 {
                    TransferAction::Store {
                        progress: if self.reports_at(after.bytes_written) {
                            Some(
                                Progress {
                                    bytes_done: after.bytes_written,
                                    bytes_total: after.total_size_bytes,
                                },
                            )
                        } else {
                            None
                        },
                    }
                } else {
                    after.pending()
                }
            },
            _ => after.pending(),
        }
    }
}

impl TransferState {
    /// The state of a transfer to `local_path` that has not begun: its
    /// first attempt, at `CheckExisting`.
    pub fn new(local_path: String) -> (state: TransferState)
        ensures
            state@ == TransferModel::initial(),
            state@.wf(),
            state.path() == local_path@,
    {
        TransferState {
            local_path,
            phase: Phase::CheckExisting,
            attempt: 1,
            resume_from: 0,
            bytes_written: 0,
            total_size_bytes: 0,
            last_percent: 0,
            last_error: None,
        }
    }

    /// The path of the destination.
    pub closed spec fn path(&self) -> Seq<char> {
        self.local_path@
    }

    /// The path of the destination.
    pub fn local_path(&self) -> (path: &String)
        ensures
            path@ == self.path(),
    {
        &self.local_path
    }

    /// Where the transfer stands.
    pub fn phase(&self) -> (phase: Phase)
        ensures
            phase == self@.phase,
    {
        self.phase
    }

    /// The attempt under way, from 1.
    pub fn attempt(&self) -> (attempt: u32)
        ensures
            attempt == self@.attempt,
    {
        self.attempt
    }

    /// The offset from which the attempt resumes, 0 where it starts
    /// afresh.
    pub fn resume_from(&self) -> (offset: u64)
        ensures
            offset == self@.resume_from,
    {
        self.resume_from
    }

    /// The bytes of the file that are in place.
    pub fn bytes_written(&self) -> (bytes: u64)
        ensures
            bytes == self@.bytes_written,
    {
        self.bytes_written
    }

    /// The size of the whole file, 0 while it is not known.
    pub fn total_size_bytes(&self) -> (bytes: u64)
        ensures
            bytes == self@.total_size_bytes,
    {
        self.total_size_bytes
    }

    /// The percentage at which progress was last reported.
    pub fn last_percent(&self) -> (percent: u64)
        ensures
            percent == self@.last_percent,
    {
        self.last_percent
    }

    /// The error of the last failed attempt.
    pub fn last_error(&self) -> (error: Option<TransferError>)
        ensures
            error == self@.last_error,
    {
        self.last_error
    }

    /// Whether the transfer is over.
    pub fn is_finished(&self) -> (b: bool)
        ensures
            b == self@.is_terminal(),
    {
        match self.phase {
            Phase::Done => true,
            Phase::Failed => true,
            _ => false,
        }
    }

    /// The outcome of the transfer, once it is over.
    pub fn outcome(&self) -> (outcome: Option<TransferOutcome>)
        ensures
            outcome == if self@.is_terminal() {
                Some(self@.outcome())
            } else {
                None
            },
    {
        match self.phase {
            Phase::Done => Some(TransferOutcome::Success { final_size: self.bytes_written }),
            Phase::Failed => Some(
                TransferOutcome::Failed {
                    cause: match self.last_error {
                        Some(e) => e,
                        None => TransferError::Network,
                    },
                },
            ),
            _ => None,
        }
    }

    /// Whether the sums that `step` would form on `event` fit in 64 bits.
    pub fn fits(&self, event: &TransferEvent) -> (b: bool)
        ensures
            b == self@.within_limits(*event),
    {
        match event {
            TransferEvent::Chunk { len } => {
                match self.phase {
                    Phase::Fetching => *len <= u64::MAX - self.bytes_written,
                    _ => true,
                }
            },
            TransferEvent::Response { status, content_length, range_total } => {
                match self.phase {
                    Phase::Sending => {
                        let length: u64 = match content_length {
                            Some(n) => *n,
                            None => 0,
                        };
                        !(self.resume_from > 0 && range_total.is_none()) || length <= u64::MAX
                            - self.resume_from
                    },
                    _ => true,
                }
            },
            _ => true,
        }
    }

    /// The action that the state waits for.
    pub fn pending_action(&self) -> (action: TransferAction)
        ensures
            action == self@.pending(),
    {
        match self.phase {
            Phase::CheckExisting => TransferAction::Stat,
            Phase::Probing => TransferAction::Head { timeout_seconds: PROBE_TIMEOUT_SECONDS },
            Phase::Opening => TransferAction::Open { append: self.resume_from > 0 },
            Phase::Sending => TransferAction::Get {
                range_from: if self.resume_from > 0 {
                    Some(self.resume_from)
                } else {
                    None
                },
                send_timeout_seconds: send_timeout_seconds(self.attempt),
            },
            Phase::Fetching => TransferAction::Receive {
                buffer_bytes: buffer_size(self.total_size_bytes),
                stall_after_seconds: STALL_SECONDS,
            },
            Phase::Backoff => TransferAction::Sleep {
                seconds: RetryPolicy::transfer().backoff_seconds(self.attempt),
            },
            Phase::Done => TransferAction::Finish {
                outcome: TransferOutcome::Success { final_size: self.bytes_written },
            },
            Phase::Failed => TransferAction::Finish {
                outcome: TransferOutcome::Failed {
                    cause: match self.last_error {
                        Some(e) => e,
                        None => TransferError::Network,
                    },
                },
            },
        }
    }

    /// Records that the attempt under way has failed with `error`.
    fn fail_attempt(&mut self, error: TransferError)
        ensures
            final(self)@ == old(self)@.failed_attempt(error),
            final(self).path() == old(self).path(),
    {
        self.last_error = Some(error);
        let retry = match RetryPolicy::transfer().after_failure(self.attempt) {
            RetryDecision::RetryAfter { seconds } => true,
            RetryDecision::GiveUp => false,
        };
        if error.retryable() && retry {
            self.phase = Phase::Backoff;
        } else {
            self.phase = Phase::Failed;
        }
    }

    /// Takes what the pending action led to, moves on, and names the next
    /// action.
    pub fn step(&mut self, event: TransferEvent) -> (action: TransferAction)
        requires
            old(self)@.wf(),
            old(self)@.within_limits(event),
        ensures
            final(self)@ == old(self)@.next(event),
            action == old(self)@.action_on(event),
            final(self)@.wf(),
            final(self).path() == old(self).path(),
    {
        proof {
            lemma_next_keeps_wf(self@, event);
        }
        match (self.phase, event) {
            (Phase::CheckExisting, TransferEvent::LocalSize { size }) => {
                match size {
                    Some(n) => {
                        if n > 0 {
                            self.phase = Phase::Probing;
                            self.resume_from = n;
                        } else {
                            self.phase = Phase::Opening;
                            self.resume_from = 0;
                        }
                    },
                    None => {
                        self.phase = Phase::Opening;
                        self.resume_from = 0;
                    },
                }
            },
            (Phase::Probing, TransferEvent::Probed { remote_size }) => {
                let same = match remote_size {
                    Some(n) => n == self.resume_from,
                    None => false,
                };
                if same {
                    self.phase = Phase::Done;
                    self.bytes_written = self.resume_from;
                    self.total_size_bytes = self.resume_from;
                } else {
                    self.phase = Phase::Opening;
                }
            },
            (Phase::Opening, TransferEvent::Opened) => {
                self.phase = Phase::Sending;
            },
            (Phase::Opening, TransferEvent::OpenFailed) => {
                self.fail_attempt(TransferError::Filesystem);
            },
            (Phase::Sending, TransferEvent::Response { status, content_length, range_total }) => {
                if status == 416 {
                    self.phase = Phase::Done;
                    self.bytes_written = self.resume_from;
                    self.total_size_bytes = self.resume_from;
                } else if accepts_status(status) {
                    let length: u64 = match content_length {
                        Some(n) => n,
                        None => 0,
                    };
                    let total: u64 = if self.resume_from > 0 {
                        match range_total {
                            Some(t) => t,
                            None => length + self.resume_from,
                        }
                    } else {
                        length
                    };
                    if total > 0 && self.resume_from > total {
                        self.fail_attempt(
                            TransferError::Incomplete { got: self.resume_from, want: total },
                        );
                    } else {
                        self.phase = Phase::Fetching;
                        self.bytes_written = self.resume_from;
                        self.total_size_bytes = total;
                        self.last_percent = percent_done(self.resume_from, total) / 10 * 10;
                    }
                } else {
                    self.fail_attempt(TransferError::HttpStatus { code: status });
                }
            },
            (Phase::Sending, TransferEvent::SendFailed) => {
                self.fail_attempt(TransferError::Network);
            },
            (Phase::Fetching, TransferEvent::Chunk { len }) => {
                if len > 0 {
                    let done: u64 = self.bytes_written + len;
                    if self.total_size_bytes > 0 && done > self.total_size_bytes {
                        self.fail_attempt(
                            TransferError::Incomplete { got: done, want: self.total_size_bytes },
                        );
                    } else {
                        let percent = percent_done(done, self.total_size_bytes);
                        proof {
                            lemma_percent_bound(self.bytes_written, self.total_size_bytes);
                        }
                        let report = percent >= self.last_percent + PROGRESS_STEP_PERCENT || done
                            == self.total_size_bytes;
                        self.bytes_written = done;
                        if report {
                            self.last_percent = percent / 10 * 10;
                            return TransferAction::Store {
                                progress: Some(
                                    Progress { bytes_done: done, bytes_total: self.total_size_bytes },
                                ),
                            };
                        }
                        return TransferAction::Store { progress: None };
                    }
                }
            },
            (Phase::Fetching, TransferEvent::Idle { seconds }) => {
                if seconds >= STALL_SECONDS {
                    self.fail_attempt(TransferError::Stall);
                }
            },
            (Phase::Fetching, TransferEvent::StreamFailed) => {
                self.fail_attempt(TransferError::Network);
            },
            (Phase::Fetching, TransferEvent::WriteFailed) => {
                self.fail_attempt(TransferError::Filesystem);
            },
            (Phase::Fetching, TransferEvent::StreamEnd) => {
                if self.total_size_bytes == 0 || self.bytes_written == self.total_size_bytes {
                    self.phase = Phase::Done;
                } else {
                    self.fail_attempt(
                        TransferError::Incomplete {
                            got: self.bytes_written,
                            want: self.total_size_bytes,
                        },
                    );
                }
            },
            (Phase::Backoff, TransferEvent::BackoffElapsed) => {
                self.phase = Phase::CheckExisting;
                self.attempt = self.attempt + 1;
                self.resume_from = 0;
                self.bytes_written = 0;
                self.total_size_bytes = 0;
                self.last_percent = 0;
            },
            _ => {},
        }
        self.pending_action()
    }
}

/// Every step leads from a well-formed state to a well-formed state.
pub proof fn lemma_next_keeps_wf(state: TransferModel, event: TransferEvent)
    requires
        state.wf(),
        state.within_limits(event),
    ensures
        state.next(event).wf(),
{
    let after = state.next(event);
    match (state.phase, event) {
        (Phase::Sending, TransferEvent::Response { status, content_length, range_total }) => {
            if status != 416 && is_accepted_status(status) {
                let total = state.total_told(content_length, range_total) as u64;
                if !(total > 0 && state.resume_from > total) {
                    lemma_percent_bound(state.resume_from, total);
                    lemma_decile(percent_of(state.resume_from, total));
                }
            }
        },
        (Phase::Fetching, TransferEvent::Chunk { len }) => {
            let done = (state.bytes_written + len) as u64;
            lemma_percent_grows(state.bytes_written, done, state.total_size_bytes);
            if !(state.total_size_bytes > 0 && done > state.total_size_bytes) {
                lemma_percent_bound(done, state.total_size_bytes);
                lemma_decile(percent_of(done, state.total_size_bytes));
            }
        },
        _ => {},
    }
}

/// The multiple of ten at or below a percentage is a multiple of ten and
/// not above it.
pub proof fn lemma_decile(percent: nat)
    ensures
        decile(percent) % 10 == 0,
        decile(percent) <= percent,
        percent < decile(percent) + 10,
{
}

/// While the bytes in place do not exceed the total, the percentage does
/// not exceed 100.
pub proof fn lemma_percent_bound(done: u64, total: u64)
    requires
        total > 0 ==> done <= total,
    ensures
        percent_of(done, total) <= 100,
        total > 0 && done == total ==> percent_of(done, total) == 100,
        total > 0 && done < total ==> percent_of(done, total) < 100,
{
    if total > 0 {
        let t = total as int;
        assert(done * 100 / t <= 100 && (done == t ==> done * 100 / t == 100) && (done < t ==> (done
            * 100 / t) < 100)) by (nonlinear_arith)
            requires
                0 <= done <= t,
                t > 0,
        ;
    }
}

/// More bytes make no fewer percents.
pub proof fn lemma_percent_grows(before: u64, after: u64, total: u64)
    requires
        before <= after,
    ensures
        percent_of(before, total) <= percent_of(after, total),
{
    if total > 0 {
        assert(before * 100 / total as int <= after * 100 / total as int) by (nonlinear_arith)
            requires
                0 <= before <= after,
                total > 0,
        ;
    }
}

} // verus!
