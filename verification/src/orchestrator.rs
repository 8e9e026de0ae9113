//! The course of one run: prepare the destination, clear what an earlier
//! run left if the operator agrees, discover the files, download them if
//! the operator agrees, and end with the verdict on the batch.
//!
//! The machine decides; the caller prepares, asks, discovers and
//! downloads, and reports what came of it.

use vstd::prelude::*;
use crate::listing::DiscoveryError;
use crate::report::BatchReport;
use crate::text::{to_lowercase, trim, trimmed, chars_of, string_of};
use crate::transfer::TransferError;

verus! {

/// How questions to the operator are settled without asking.
#[derive(Clone, Copy, Debug, PartialEq, Eq, Structural)]
pub struct RunOptions {
    /// Every question counts as answered with yes.
    pub auto_yes: bool,
    /// No question is put; each counts as answered with its default.
    pub quiet: bool,
}

/// A question to the operator.
#[derive(Clone, Copy, Debug, PartialEq, Eq, Structural)]
pub enum Question {
    /// Whether to remove the files that an earlier run left.
    RemoveExisting { count: usize },
    /// Whether to download the files found.
    Download { count: usize },
}

impl Question {
    /// The answer that stands where the operator gives none: no to
    /// removing files, yes to downloading.
    pub open spec fn default_answer(self) -> bool {
        self is Download
    }

    /// The answer that stands where the operator gives none.
    pub fn default(&self) -> (answer: bool)
        ensures
            answer == self.default_answer(),
    {
        match self {
            Question::Download { count } => true,
            Question::RemoveExisting { count } => false,
        }
    }
}

/// How a run ended.
#[derive(Clone, Copy, Debug, PartialEq, Eq, Structural)]
pub enum RunStatus {
    /// Every file is complete.
    Completed { files: usize },
    /// The operator declined.
    Cancelled,
    /// The destination could not be prepared or cleared.
    DestinationFailed,
    /// Discovery failed; nothing was downloaded.
    DiscoveryFailed { error: DiscoveryError },
    /// So many transfers failed, the first of them with this cause. The
    /// files that are complete stay in place.
    TransfersFailed { failed: usize, first_cause: TransferError },
}

impl RunStatus {
    /// Whether the run counts as failed.
    pub open spec fn is_failure(self) -> bool {
        self is DestinationFailed || self is DiscoveryFailed || self is TransfersFailed
    }

    /// Whether the run counts as failed.
    pub fn failed(&self) -> (b: bool)
        ensures
            b == self.is_failure(),
    {
        match self {
            RunStatus::Completed { files } => false,
            RunStatus::Cancelled => false,
            _ => true,
        }
    }
}

/// Where a run stands.
#[derive(Clone, Copy, Debug, PartialEq, Eq, Structural)]
pub enum RunPhase {
    /// The destination is being prepared and searched for earlier files.
    Preparing,
    /// The operator is asked whether to remove the earlier files.
    ConfirmingRemoval { count: usize },
    /// The earlier files are being removed.
    Removing,
    /// The files on offer are being discovered.
    Discovering,
    /// The operator is asked whether to download.
    ConfirmingDownload { count: usize },
    /// The batch is being downloaded.
    Downloading { count: usize },
    /// The run is over.
    Ended { status: RunStatus },
}

/// What the outside work led to.
#[derive(Clone, Copy, Debug, PartialEq, Eq, Structural)]
pub enum RunEvent {
    /// The destination exists and holds so many files of an earlier run.
    Prepared { existing: usize },
    /// The operator has answered.
    Answered { yes: bool },
    /// The earlier files are removed.
    Removed,
    /// The destination could not be prepared or cleared.
    DestinationFailed,
    /// Discovery has found so many files.
    Discovered { count: usize },
    /// Discovery has failed.
    DiscoveryFailed { error: DiscoveryError },
    /// Every transfer has ended: so many succeeded, so many failed, and
    /// the first failure had this cause.
    BatchEnded { succeeded: usize, failed: usize, first_cause: Option<TransferError> },
}

/// The outside work that the run asks for.
#[derive(Clone, Copy, Debug, PartialEq, Eq, Structural)]
pub enum RunAction {
    /// Make sure that the destination exists, and count the files of an
    /// earlier run in it; answer with `Prepared` or `DestinationFailed`.
    Prepare,
    /// Put the question to the operator; answer with `Answered`.
    Ask { question: Question, default_answer: bool },
    /// Remove the files of the earlier run; answer with `Removed` or
    /// `DestinationFailed`.
    RemoveExisting,
    /// Discover the files; answer with `Discovered` or `DiscoveryFailed`.
    Discover,
    /// Download the files and report each failure; answer with
    /// `BatchEnded`.
    Download,
    /// The run is over.
    Exit { status: RunStatus },
}

/// The state of a run. Made by `new`, moved on by `step`.
#[derive(Clone, Copy, Debug, PartialEq, Eq, Structural)]
pub struct Orchestrator {
    pub options: RunOptions,
    pub phase: RunPhase,
}

impl Orchestrator {
    /// How the question `question` is settled without asking, if it is:
    /// with yes under `auto_yes`, else with its default under `quiet`.
    pub open spec fn settled(self, question: Question) -> Option<bool> {
        if self.options.auto_yes {
            Some(true)
        } else if self.options.quiet {
            Some(question.default_answer())
        } else {
            None
        }
    }

    /// The phase that follows the answer `yes` to the question of the
    /// phase `self.phase`.
    pub open spec fn answered(self, question: Question, yes: bool) -> RunPhase {
        if !yes {
            RunPhase::Ended { status: RunStatus::Cancelled }
        } else {
            match question {
                Question::RemoveExisting { count } => RunPhase::Removing,
                Question::Download { count } => RunPhase::Downloading { count },
            }
        }
    }

    /// The phase that follows when `question` comes up: the phase in
    /// which it is put, or, where it is settled without asking, the phase
    /// that follows its answer.
    pub open spec fn raised(self, question: Question) -> RunPhase {
        match self.settled(question) {
            Some(yes) => self.answered(question, yes),
            None => match question {
                Question::RemoveExisting { count } => RunPhase::ConfirmingRemoval { count },
                Question::Download { count } => RunPhase::ConfirmingDownload { count },
            },
        }
    }

    /// The verdict on a batch: completed where no transfer failed, else
    /// failed with the cause of the first failure.
    pub open spec fn verdict(
        succeeded: usize,
        failed: usize,
        first_cause: Option<TransferError>,
    ) -> RunStatus {
        match first_cause {
            Some(cause) => RunStatus::TransfersFailed { failed, first_cause: cause },
            None => RunStatus::Completed { files: succeeded },
        }
    }

    /// The phase that follows `self.phase` on `event`. An event that does
    /// not answer the pending action leaves the phase as it is.
    pub open spec fn next_phase(self, event: RunEvent) -> RunPhase {
        match (self.phase, event) {
            (RunPhase::Preparing, RunEvent::Prepared { existing }) => if existing > 0 {
                self.raised(Question::RemoveExisting { count: existing })
            } else {
                RunPhase::Discovering
            },
            (RunPhase::Preparing, RunEvent::DestinationFailed) => RunPhase::Ended {
                status: RunStatus::DestinationFailed,
            },
            (RunPhase::ConfirmingRemoval { count }, RunEvent::Answered { yes }) => self.answered(
                Question::RemoveExisting { count },
                yes,
            ),
            (RunPhase::Removing, RunEvent::Removed) => RunPhase::Discovering,
            (RunPhase::Removing, RunEvent::DestinationFailed) => RunPhase::Ended {
                status: RunStatus::DestinationFailed,
            },
            (RunPhase::Discovering, RunEvent::Discovered { count }) => self.raised(
                Question::Download { count },
            ),
            (RunPhase::Discovering, RunEvent::DiscoveryFailed { error }) => RunPhase::Ended {
                status: RunStatus::DiscoveryFailed { error },
            },
            (RunPhase::ConfirmingDownload { count }, RunEvent::Answered { yes }) => self.answered(
                Question::Download { count },
                yes,
            ),
            (
                RunPhase::Downloading { count },
                RunEvent::BatchEnded { succeeded, failed, first_cause },
            ) => RunPhase::Ended { status: Self::verdict(succeeded, failed, first_cause) },
            _ => self.phase,
        }
    }

    /// The run after `event`.
    pub open spec fn next(self, event: RunEvent) -> Orchestrator {
        Orchestrator { phase: self.next_phase(event), ..self }
    }

    /// The action that the run waits for.
    pub open spec fn pending(self) -> RunAction {
        match self.phase {
            RunPhase::Preparing => RunAction::Prepare,
            RunPhase::ConfirmingRemoval { count } => RunAction::Ask {
                question: Question::RemoveExisting { count },
                default_answer: false,
            },
            RunPhase::Removing => RunAction::RemoveExisting,
            RunPhase::Discovering => RunAction::Discover,
            RunPhase::ConfirmingDownload { count } => RunAction::Ask {
                question: Question::Download { count },
                default_answer: true,
            },
            RunPhase::Downloading { count } => RunAction::Download,
            RunPhase::Ended { status } => RunAction::Exit { status },
        }
    }

    /// A run that has not begun.
    pub fn new(options: RunOptions) -> (run: Orchestrator)
        ensures
            run == (Orchestrator { options, phase: RunPhase::Preparing }),
    {
        Orchestrator { options, phase: RunPhase::Preparing }
    }

    /// The action that the run waits for.
    pub fn pending_action(&self) -> (action: RunAction)
        ensures
            action == self.pending(),
    {
        match self.phase {
            RunPhase::Preparing => RunAction::Prepare,
            RunPhase::ConfirmingRemoval { count } => RunAction::Ask {
                question: Question::RemoveExisting { count },
                default_answer: false,
            },
            RunPhase::Removing => RunAction::RemoveExisting,
            RunPhase::Discovering => RunAction::Discover,
            RunPhase::ConfirmingDownload { count } => RunAction::Ask {
                question: Question::Download { count },
                default_answer: true,
            },
            RunPhase::Downloading { count } => RunAction::Download,
            RunPhase::Ended { status } => RunAction::Exit { status },
        }
    }

    /// The phase that follows the answer `yes` to `question`.
    fn phase_after_answer(question: Question, yes: bool) -> (phase: RunPhase)
        ensures
            forall|run: Orchestrator| phase == #[trigger] run.answered(question, yes),
    {
        if !yes {
            RunPhase::Ended { status: RunStatus::Cancelled }
        } else {
            match question {
                Question::RemoveExisting { count } => RunPhase::Removing,
                Question::Download { count } => RunPhase::Downloading { count },
            }
        }
    }

    /// The phase that follows when `question` comes up.
    fn phase_on_question(&self, question: Question) -> (phase: RunPhase)
        ensures
            phase == self.raised(question),
    {
        if self.options.auto_yes {
            Self::phase_after_answer(question, true)
        } else if self.options.quiet {
            Self::phase_after_answer(question, question.default())
        } else {
            match question {
                Question::RemoveExisting { count } => RunPhase::ConfirmingRemoval { count },
                Question::Download { count } => RunPhase::ConfirmingDownload { count },
            }
        }
    }

    /// Takes what the pending action led to, moves on, and names the next
    /// action.
    pub fn step(&mut self, event: RunEvent) -> (action: RunAction)
        ensures
            *final(self) == old(self).next(event),
            action == final(self).pending(),
    {
        let phase = match (self.phase, event) {
            (RunPhase::Preparing, RunEvent::Prepared { existing }) => {
                if existing > 0 {
                    self.phase_on_question(Question::RemoveExisting { count: existing })
                } else {
                    RunPhase::Discovering
                }
            },
            (RunPhase::Preparing, RunEvent::DestinationFailed) => RunPhase::Ended {
                status: RunStatus::DestinationFailed,
            },
            (RunPhase::ConfirmingRemoval { count }, RunEvent::Answered { yes }) => {
                Self::phase_after_answer(Question::RemoveExisting { count }, yes)
            },
            (RunPhase::Removing, RunEvent::Removed) => RunPhase::Discovering,
            (RunPhase::Removing, RunEvent::DestinationFailed) => RunPhase::Ended {
                status: RunStatus::DestinationFailed,
            },
            (RunPhase::Discovering, RunEvent::Discovered { count }) => {
                self.phase_on_question(Question::Download { count })
            },
            (RunPhase::Discovering, RunEvent::DiscoveryFailed { error }) => RunPhase::Ended {
                status: RunStatus::DiscoveryFailed { error },
            },
            (RunPhase::ConfirmingDownload { count }, RunEvent::Answered { yes }) => {
                Self::phase_after_answer(Question::Download { count }, yes)
            },
            (
                RunPhase::Downloading { count },
                RunEvent::BatchEnded { succeeded, failed, first_cause },
            ) => {
                match first_cause {
                    Some(cause) => RunPhase::Ended {
                        status: RunStatus::TransfersFailed { failed, first_cause: cause },
                    },
                    None => RunPhase::Ended { status: RunStatus::Completed { files: succeeded } },
                }
            },
            _ => self.phase,
        };
        self.phase = phase;
        self.pending_action()
    }
}

/// Nothing is downloaded without consent: the download begins only on
/// the operator's yes, or, where the question is settled without asking,
/// on the answer that the options give.
pub proof fn lemma_download_needs_consent(run: Orchestrator, event: RunEvent)
    requires
        !(run.phase is Downloading),
        run.next(event).phase is Downloading,
    ensures
        ({
            ||| run.phase is ConfirmingDownload && event == (RunEvent::Answered { yes: true })
            ||| run.phase is Discovering && event is Discovered && (run.options.auto_yes
                || run.options.quiet)
        }),
{
}

/// Nothing is removed without consent: the files of an earlier run are
/// removed only on the operator's yes, or under `auto_yes`.
pub proof fn lemma_removal_needs_consent(run: Orchestrator, event: RunEvent)
    requires
        !(run.phase is Removing),
        run.next(event).phase is Removing,
    ensures
        ({
            ||| run.phase is ConfirmingRemoval && event == (RunEvent::Answered { yes: true })
            ||| run.phase is Preparing && event is Prepared && event->existing > 0
                && run.options.auto_yes
        }),
{
}

/// A batch fails as a whole exactly when one of its transfers failed, and
/// then with the cause of the first failure; a failure of discovery ends
/// the run before any download.
pub proof fn lemma_verdict(run: Orchestrator, event: RunEvent)
    ensures
        run.phase is Downloading && event is BatchEnded ==> {
            &&& run.next(event).phase is Ended
            &&& run.next(event).phase->status.is_failure() <==> event->first_cause is Some
            &&& event->first_cause is Some ==> run.next(event).phase->status == (
            RunStatus::TransfersFailed {
                failed: event->failed,
                first_cause: event->first_cause->0,
            })
            &&& event->first_cause is None ==> run.next(event).phase->status == (
            RunStatus::Completed { files: event->succeeded })
        },
        run.phase is Discovering && event is DiscoveryFailed ==> run.next(event).pending() == (
        RunAction::Exit { status: RunStatus::DiscoveryFailed { error: event->error } }),
        run.phase is Ended ==> run.next(event) == run,
{
}

/// The event with which the report of a batch is handed to the run.
pub fn batch_ended(report: &BatchReport) -> (event: RunEvent)
    ensures
        event == (RunEvent::BatchEnded {
            succeeded: report.succeeded,
            failed: report.failures@.len() as usize,
            first_cause: if report.failures@.len() > 0 {
                Some(report.failures@[0].cause)
            } else {
                None
            },
        }),
{
    let first_cause = match report.first_failure() {
        Some(failed) => Some(failed.cause),
        None => None,
    };
    RunEvent::BatchEnded { succeeded: report.succeeded, failed: report.failures.len(), first_cause }
}

/// The answers that mean yes.
pub open spec fn is_yes(lowered: Seq<char>) -> bool {
    ||| lowered == seq!['y']
    ||| lowered == seq!['s']
    ||| lowered == seq!['y', 'e', 's']
    ||| lowered == seq!['s', 'i', 'm']
}

/// What a typed answer means, given in lower case and trimmed: the default
/// where nothing was typed, yes for `y`, `s`, `yes` and `sim`, else no.
pub open spec fn answer_meaning(lowered: Seq<char>, default_answer: bool) -> bool {
    if lowered.len() == 0 {
        default_answer
    } else {
        is_yes(lowered)
    }
}

/// What a typed answer means, given in lower case and trimmed.
pub fn answer_from_lowered(lowered: &Vec<char>, default_answer: bool) -> (yes: bool)
    ensures
        yes == answer_meaning(lowered@, default_answer),
{
    let n = lowered.len();
    if n == 0 {
        return default_answer;
    }
    proof {
        assert(seq!['y'].len() == 1 && seq!['y'][0] == 'y');
        assert(seq!['s'].len() == 1 && seq!['s'][0] == 's');
        assert(seq!['y', 'e', 's'].len() == 3 && seq!['y', 'e', 's'][0] == 'y' && seq!['y', 'e', 's'][1]
            == 'e' && seq!['y', 'e', 's'][2] == 's');
        assert(seq!['s', 'i', 'm'].len() == 3 && seq!['s', 'i', 'm'][0] == 's' && seq!['s', 'i', 'm'][1]
            == 'i' && seq!['s', 'i', 'm'][2] == 'm');
    }
    if n == 1 {
        let yes = lowered[0] == 'y' || lowered[0] == 's';
        assert(yes ==> lowered@ =~= seq![lowered@[0]]);
        yes
    } else if n == 3 {
        let yes = (lowered[0] == 'y' && lowered[1] == 'e' && lowered[2] == 's') || (lowered[0] == 's'
            && lowered[1] == 'i' && lowered[2] == 'm');
        assert(yes ==> lowered@ =~= seq![lowered@[0], lowered@[1], lowered@[2]]);
        yes
    } else {
        false
    }
}

/// What the line `input` means that the operator typed in answer to a
/// question: it is trimmed and put in lower case, then read as
/// `answer_meaning` says.
pub fn answer_of(input: &str, default_answer: bool) -> (yes: bool)
    ensures
        yes == answer_meaning(crate::text::lowercase_of(trimmed(input@)), default_answer),
{
    let typed = string_of(&trim(&chars_of(input)));
    let lowered = to_lowercase(typed.as_str());
    answer_from_lowered(&chars_of(lowered.as_str()), default_answer)
}

} // verus!
