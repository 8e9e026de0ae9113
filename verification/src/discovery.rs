//! Discovery as a state machine: the archive's index is fetched, then the
//! listing of its latest snapshot folder, each with its own number of
//! attempts and its pauses between them.
//!
//! The caller fetches; the machine decides what is fetched next, when to
//! wait, and when to give up.

use vstd::prelude::*;
use crate::listing::{
    document_anchor_hrefs, document_table_rows, files_of_listing, files_of_rows, has_snapshot_folder,
    is_latest_snapshot, is_sorted_by_size, latest_snapshot, lemma_latest_snapshot_is_unique,
    snapshot_url, sorted_by_size, DiscoveryError, RemoteFile, RemoteFileView,
};
use crate::retry::{RetryDecision, RetryPolicy};

verus! {

/// Where discovery stands.
#[derive(Clone, Copy, Debug, PartialEq, Eq, Structural)]
pub enum DiscoveryPhase {
    /// The archive's index is being fetched.
    Index,
    /// The listing of the latest snapshot folder is being fetched.
    Folder,
    /// The files are known.
    Found,
    /// Discovery has failed.
    Failed,
}

/// What a fetch, or a pause, led to.
#[derive(Clone, Debug, PartialEq, Eq)]
pub enum DiscoveryEvent {
    /// The page was fetched; this is its text.
    Fetched { body: String },
    /// The page could not be fetched.
    FetchFailed,
    /// The pause is over.
    BackoffElapsed,
}

/// A `DiscoveryEvent` with its text as a sequence of characters.
pub enum DiscoveryEventView {
    Fetched { body: Seq<char> },
    FetchFailed,
    BackoffElapsed,
}

impl View for DiscoveryEvent {
    type V = DiscoveryEventView;

    open spec fn view(&self) -> DiscoveryEventView {
        match self {
            DiscoveryEvent::Fetched { body } => DiscoveryEventView::Fetched { body: body@ },
            DiscoveryEvent::FetchFailed => DiscoveryEventView::FetchFailed,
            DiscoveryEvent::BackoffElapsed => DiscoveryEventView::BackoffElapsed,
        }
    }
}

/// The outside work that discovery asks for.
#[derive(Clone, Debug, PartialEq, Eq)]
pub enum DiscoveryAction {
    /// Fetch the page at this URL; answer with `Fetched` or `FetchFailed`.
    Get { url: String },
    /// Wait; answer with `BackoffElapsed`.
    Sleep { seconds: u64 },
    /// Discovery is over; `Discovery::into_result` gives what it found.
    Finish,
}

/// A `DiscoveryAction` with its URL as a sequence of characters.
pub enum DiscoveryActionView {
    Get { url: Seq<char> },
    Sleep { seconds: u64 },
    Finish,
}

impl View for DiscoveryAction {
    type V = DiscoveryActionView;

    open spec fn view(&self) -> DiscoveryActionView {
        match self {
            DiscoveryAction::Get { url } => DiscoveryActionView::Get { url: url@ },
            DiscoveryAction::Sleep { seconds } => DiscoveryActionView::Sleep { seconds: *seconds },
            DiscoveryAction::Finish => DiscoveryActionView::Finish,
        }
    }
}

/// The state of discovery as the contracts see it.
pub struct DiscoveryModel {
    pub phase: DiscoveryPhase,
    /// The attempt under way at the page of the phase, from 1.
    pub attempt: u32,
    /// Whether the pause after a failed attempt is under way.
    pub waiting: bool,
    pub base_url: Seq<char>,
    /// The URL of the latest snapshot folder, once it is known.
    pub folder_url: Seq<char>,
    /// The files found, smallest first.
    pub files: Seq<RemoteFileView>,
    pub error: Option<DiscoveryError>,
}

/// The latest snapshot folder among `hrefs`, if one of them names a
/// snapshot folder.
pub open spec fn latest_snapshot_among(hrefs: Seq<Option<Seq<char>>>) -> Option<Seq<char>> {
    if exists|folder: Seq<char>| is_latest_snapshot(hrefs, folder) {
        Some(choose|folder: Seq<char>| is_latest_snapshot(hrefs, folder))
    } else {
        None
    }
}

impl DiscoveryModel {
    /// The state in which discovery begins at the archive `base_url`.
    pub open spec fn initial(base_url: Seq<char>) -> DiscoveryModel {
        DiscoveryModel {
            phase: DiscoveryPhase::Index,
            attempt: 1,
            waiting: false,
            base_url,
            folder_url: Seq::empty(),
            files: Seq::empty(),
            error: None,
        }
    }

    /// The policy by which the page of the phase is fetched.
    pub open spec fn policy(self) -> RetryPolicy {
        if self.phase is Folder {
            RetryPolicy::folder_policy()
        } else {
            RetryPolicy::index_policy()
        }
    }

    /// What holds of every state that `initial` and `next` lead to.
    pub open spec fn wf(self) -> bool {
        &&& 1 <= self.attempt <= self.policy().max_attempts
        &&& self.waiting ==> (self.phase is Index || self.phase is Folder) && self.attempt
            < self.policy().max_attempts
        &&& self.phase is Failed <==> self.error is Some
        &&& self.phase is Found ==> self.files.len() > 0 && is_sorted_by_size(self.files)
    }

    /// Whether discovery is over.
    pub open spec fn is_terminal(self) -> bool {
        self.phase is Found || self.phase is Failed
    }

    /// The URL of the page of the phase.
    pub open spec fn page_url(self) -> Seq<char> {
        if self.phase is Folder {
            self.folder_url
        } else {
            self.base_url
        }
    }

    /// The action that the state waits for.
    pub open spec fn pending(self) -> DiscoveryActionView {
        if self.is_terminal() {
            DiscoveryActionView::Finish
        } else if self.waiting {
            DiscoveryActionView::Sleep { seconds: self.policy().backoff(self.attempt) as u64 }
        } else {
            DiscoveryActionView::Get { url: self.page_url() }
        }
    }

    /// The state after discovery has failed with `error`.
    pub open spec fn failed(self, error: DiscoveryError) -> DiscoveryModel {
        DiscoveryModel { phase: DiscoveryPhase::Failed, waiting: false, error: Some(error), ..self }
    }

    /// The state after the page of the phase could not be fetched: a pause
    /// follows while an attempt is left; else discovery has failed as
    /// unreachable.
    pub open spec fn fetch_failed(self) -> DiscoveryModel {
        if self.policy().decision(self.attempt) is RetryAfter {
            DiscoveryModel { waiting: true, ..self }
        } else {
            self.failed(DiscoveryError::Unreachable)
        }
    }

    /// The state after the index page `body` was fetched: the listing of
    /// its latest snapshot folder is next, at its first attempt; discovery
    /// has failed where the index names no snapshot folder.
    pub open spec fn index_read(self, body: Seq<char>) -> DiscoveryModel {
        match latest_snapshot_among(document_anchor_hrefs(body)) {
            Some(folder) => DiscoveryModel {
                phase: DiscoveryPhase::Folder,
                attempt: 1,
                folder_url: self.base_url + folder,
                ..self
            },
            None => self.failed(DiscoveryError::NoSnapshotFolder),
        }
    }

    /// The state after the folder's listing `body` was fetched: the files
    /// that it offers are found, smallest first; discovery has failed
    /// where it offers none.
    pub open spec fn folder_read(self, body: Seq<char>) -> DiscoveryModel {
        let offered = files_of_rows(self.folder_url, document_table_rows(body));
        if offered.len() > 0 {
            DiscoveryModel { phase: DiscoveryPhase::Found, files: sorted_by_size(offered), ..self }
        } else {
            self.failed(DiscoveryError::NoFiles)
        }
    }

    /// The state that follows `self` on `event`. An event that does not
    /// answer the pending action leaves the state as it is.
    pub open spec fn next(self, event: DiscoveryEventView) -> DiscoveryModel {
        if self.is_terminal() {
            self
        } else if self.waiting {
            match event {
                DiscoveryEventView::BackoffElapsed => DiscoveryModel {
                    waiting: false,
                    attempt: (self.attempt + 1) as u32,
                    ..self
                },
                _ => self,
            }
        } else {
            match event {
                DiscoveryEventView::Fetched { body } => if self.phase is Index {
                    self.index_read(body)
                } else {
                    self.folder_read(body)
                },
                DiscoveryEventView::FetchFailed => self.fetch_failed(),
                DiscoveryEventView::BackoffElapsed => self,
            }
        }
    }
}

/// The state of discovery. Made by `new`, moved on by `step`.
#[derive(Debug)]
pub struct Discovery {
    base_url: String,
    phase: DiscoveryPhase,
    attempt: u32,
    waiting: bool,
    folder_url: String,
    files: Vec<RemoteFile>,
    error: Option<DiscoveryError>,
}

impl View for Discovery {
    type V = DiscoveryModel;

    closed spec fn view(&self) -> DiscoveryModel {
        DiscoveryModel {
            phase: self.phase,
            attempt: self.attempt,
            waiting: self.waiting,
            base_url: self.base_url@,
            folder_url: self.folder_url@,
            files: self.files.deep_view(),
            error: self.error,
        }
    }
}

impl Discovery {
    /// Discovery at the archive `base_url`, not yet begun: the first
    /// attempt at the index.
    pub fn new(base_url: String) -> (discovery: Discovery)
        ensures
            discovery@ == DiscoveryModel::initial(base_url@),
            discovery@.wf(),
    {
        let discovery = Discovery {
            base_url,
            phase: DiscoveryPhase::Index,
            attempt: 1,
            waiting: false,
            folder_url: String::new(),
            files: Vec::new(),
            error: None,
        };
        assert(discovery.files.deep_view() =~= Seq::<RemoteFileView>::empty());
        discovery
    }

    /// Where discovery stands.
    pub fn phase(&self) -> (phase: DiscoveryPhase)
        ensures
            phase == self@.phase,
    {
        self.phase
    }

    /// The attempt under way at the page of the phase, from 1.
    pub fn attempt(&self) -> (attempt: u32)
        ensures
            attempt == self@.attempt,
    {
        self.attempt
    }

    /// The error with which discovery has failed.
    pub fn error(&self) -> (error: Option<DiscoveryError>)
        ensures
            error == self@.error,
    {
        self.error
    }

    /// The policy by which the page of the phase is fetched.
    pub fn policy(&self) -> (policy: RetryPolicy)
        ensures
            policy == self@.policy(),
    {
        match self.phase {
            DiscoveryPhase::Folder => RetryPolicy::folder_listing(),
            _ => RetryPolicy::index_listing(),
        }
    }

    /// Whether discovery is over.
    pub fn is_finished(&self) -> (b: bool)
        ensures
            b == self@.is_terminal(),
    {
        match self.phase {
            DiscoveryPhase::Found => true,
            DiscoveryPhase::Failed => true,
            _ => false,
        }
    }

    /// The action that the state waits for.
    pub fn pending_action(&self) -> (action: DiscoveryAction)
        ensures
            action@ == self@.pending(),
    {
        if self.is_finished() {
            DiscoveryAction::Finish
        } else if self.waiting {
            DiscoveryAction::Sleep { seconds: self.policy().backoff_seconds(self.attempt) }
        } else {
            match self.phase {
                DiscoveryPhase::Folder => DiscoveryAction::Get { url: self.folder_url.clone() },
                _ => DiscoveryAction::Get { url: self.base_url.clone() },
            }
        }
    }

    /// Takes what the pending action led to, moves on, and names the next
    /// action.
    pub fn step(&mut self, event: DiscoveryEvent) -> (action: DiscoveryAction)
        requires
            old(self)@.wf(),
        ensures
            final(self)@ == old(self)@.next(event@),
            action@ == final(self)@.pending(),
            final(self)@.wf(),
    {
        if !self.is_finished() {
            if self.waiting {
                match event {
                    DiscoveryEvent::BackoffElapsed => {
                        self.waiting = false;
                        self.attempt = self.attempt + 1;
                    },
                    _ => {},
                }
            } else {
                match event {
                    DiscoveryEvent::Fetched { body } => {
                        match self.phase {
                            DiscoveryPhase::Index => {
                                match latest_snapshot(body.as_str()) {
                                    Ok(folder) => {
                                        proof {
                                            lemma_latest_is_the_chosen(
                                                document_anchor_hrefs(body@),
                                                folder@,
                                            );
                                        }
                                        self.folder_url = snapshot_url(
                                            self.base_url.as_str(),
                                            folder.as_str(),
                                        );
                                        self.phase = DiscoveryPhase::Folder;
                                        self.attempt = 1;
                                    },
                                    Err(e) => {
                                        proof {
                                            lemma_no_snapshot_no_latest(
                                                document_anchor_hrefs(body@),
                                            );
                                        }
                                        self.phase = DiscoveryPhase::Failed;
                                        self.error = Some(DiscoveryError::NoSnapshotFolder);
                                    },
                                }
                            },
                            _ => {
                                match files_of_listing(self.folder_url.as_str(), body.as_str()) {
                                    Ok(files) => {
                                        self.files = files;
                                        self.phase = DiscoveryPhase::Found;
                                        proof {
                                            crate::listing::lemma_sorted_by_size(
                                                files_of_rows(
                                                    self.folder_url@,
                                                    document_table_rows(body@),
                                                ),
                                            );
                                        }
                                    },
                                    Err(e) => {
                                        self.phase = DiscoveryPhase::Failed;
                                        self.error = Some(DiscoveryError::NoFiles);
                                    },
                                }
                            },
                        }
                    },
                    DiscoveryEvent::FetchFailed => {
                        match self.policy().after_failure(self.attempt) {
                            RetryDecision::RetryAfter { seconds } => {
                                self.waiting = true;
                            },
                            RetryDecision::GiveUp => {
                                self.phase = DiscoveryPhase::Failed;
                                self.error = Some(DiscoveryError::Unreachable);
                            },
                        }
                    },
                    DiscoveryEvent::BackoffElapsed => {},
                }
            }
        }
        self.pending_action()
    }

    /// What discovery found, once it is over: the files, smallest first,
    /// or the error with which it failed. None while it is not over.
    pub fn into_result(self) -> (result: Option<Result<Vec<RemoteFile>, DiscoveryError>>)
        requires
            self@.wf(),
        ensures
            match result {
                Some(Ok(files)) => self@.phase is Found && files.deep_view() == self@.files
                    && files.len() > 0 && is_sorted_by_size(files.deep_view()),
                Some(Err(e)) => self@.phase is Failed && self@.error == Some(e),
                None => !self@.is_terminal(),
            },
    {
        match self.phase {
            DiscoveryPhase::Found => Some(Ok(self.files)),
            DiscoveryPhase::Failed => match self.error {
                Some(e) => Some(Err(e)),
                None => None,
            },
            _ => None,
        }
    }
}

/// The latest snapshot folder is the one that `latest_snapshot_among`
/// names.
pub proof fn lemma_latest_is_the_chosen(hrefs: Seq<Option<Seq<char>>>, folder: Seq<char>)
    requires
        is_latest_snapshot(hrefs, folder),
    ensures
        latest_snapshot_among(hrefs) == Some(folder),
{
    let chosen = choose|f: Seq<char>| is_latest_snapshot(hrefs, f);
    lemma_latest_snapshot_is_unique(hrefs, folder, chosen);
}

/// Where no `href` names a snapshot folder, none is the latest.
pub proof fn lemma_no_snapshot_no_latest(hrefs: Seq<Option<Seq<char>>>)
    requires
        !has_snapshot_folder(hrefs),
    ensures
        latest_snapshot_among(hrefs) is None,
{
    if exists|folder: Seq<char>| is_latest_snapshot(hrefs, folder) {
        let folder = choose|folder: Seq<char>| is_latest_snapshot(hrefs, folder);
        let i = choose|i: int| 0 <= i < hrefs.len() && #[trigger] hrefs[i] == Some(folder);
        assert(crate::listing::is_snapshot_href(hrefs[i]));
    }
}

/// Every step leads from a well-formed state to a well-formed state.
pub proof fn lemma_next_keeps_wf(state: DiscoveryModel, event: DiscoveryEventView)
    requires
        state.wf(),
    ensures
        state.next(event).wf(),
{
    match event {
        DiscoveryEventView::Fetched { body } => {
            if !state.is_terminal() && !state.waiting && !(state.phase is Index) {
                crate::listing::lemma_sorted_by_size(
                    files_of_rows(state.folder_url, document_table_rows(body)),
                );
            }
        },
        _ => {},
    }
}

/// The state after `failures` fetches of the page of the phase have
/// failed one after the other, each followed by its pause while one
/// follows.
pub open spec fn after_failed_fetches(state: DiscoveryModel, failures: nat) -> DiscoveryModel
    decreases failures,
{
    if failures == 0 {
        state
    } else {
        let failed = state.fetch_failed();
        if failed.waiting {
            after_failed_fetches(
                failed.next(DiscoveryEventView::BackoffElapsed),
                (failures - 1) as nat,
            )
        } else {
            failed
        }
    }
}

/// A page that cannot be fetched is tried as often as its policy allows,
/// 5 times the index and 3 times a folder's listing, with a pause of twice
/// the attempt's number in seconds after each failure but the last; then
/// discovery has failed as unreachable.
pub proof fn lemma_unreachable_after_the_last_attempt(state: DiscoveryModel, failures: nat)
    requires
        state.wf(),
        !state.is_terminal(),
        !state.waiting,
        failures >= 1,
        state.attempt + failures - 1 <= state.policy().max_attempts,
    ensures
        ({
            let end = after_failed_fetches(state, failures);
            if state.attempt + failures - 1 == state.policy().max_attempts {
                end.phase is Failed && end.error == Some(DiscoveryError::Unreachable)
            } else {
                end.phase == state.phase && end.attempt == state.attempt + failures && !end.waiting
                    && end.error is None
            }
        }),
        state.attempt < state.policy().max_attempts ==> state.fetch_failed().pending() == (
        DiscoveryActionView::Sleep { seconds: (2 * state.attempt) as u64 }),
    decreases failures,
{
    let failed = state.fetch_failed();
    assert(state.attempt * 2 == 2 * state.attempt) by (nonlinear_arith);
    if failed.waiting {
        let fresh = failed.next(DiscoveryEventView::BackoffElapsed);
        if failures > 1 {
            lemma_unreachable_after_the_last_attempt(fresh, (failures - 1) as nat);
        } else {
            assert(after_failed_fetches(fresh, 0) == fresh);
        }
    }
}

} // verus!
