//! The scheduler of a batch: which transfer starts next, under a fixed
//! budget of permits.
//!
//! Files are numbered in the order in which they are handed in, smallest
//! first. The scheduler names the next file to start as long as a permit is
//! free; a file holds its permit from its start until its outcome is
//! reported, over all its attempts. The caller runs the transfers and
//! reports each outcome; no outcome ends the batch early.

use vstd::prelude::*;
use crate::transfer::TransferOutcome;

verus! {

/// The number of transfers that may run at one time.
pub const MAX_CONCURRENT: usize = 3;

/// What the caller is to do next.
#[derive(Clone, Copy, Debug, PartialEq, Eq, Structural)]
pub enum SchedulerAction {
    /// Start the transfer of the file with this number.
    Start { index: usize },
    /// Wait for a running transfer to end, and report its outcome.
    Wait,
    /// Every file has its outcome.
    Finished,
}

/// A step of a schedule: the caller asks what to do, or reports that the
/// transfer of a file has ended.
#[derive(Clone, Copy, Debug, PartialEq, Eq, Structural)]
pub enum SchedulerStep {
    Ask,
    Report { index: usize, outcome: TransferOutcome },
}

/// The state of a batch as the contracts see it.
pub struct SchedulerModel {
    /// The number of permits.
    pub capacity: nat,
    /// The files with a smaller number have been started.
    pub dispatched: nat,
    /// The files that hold a permit, in the order of their start.
    pub running: Seq<usize>,
    /// The outcome of each file, by its number; none while it has none.
    pub results: Seq<Option<TransferOutcome>>,
}

/// Whether `file` is one of the numbers `running`.
pub open spec fn is_among(running: Seq<usize>, file: int) -> bool {
    exists|k: int| 0 <= k < running.len() && #[trigger] running[k] == file
}

impl SchedulerModel {
    /// The state of a batch of `total` files under `capacity` permits
    /// before any file has been started.
    pub open spec fn initial(total: nat, capacity: nat) -> SchedulerModel {
        SchedulerModel {
            capacity,
            dispatched: 0,
            running: Seq::empty(),
            results: Seq::new(total, |i: int| None),
        }
    }

    /// The number of files of the batch.
    pub open spec fn total(self) -> nat {
        self.results.len()
    }

    /// What holds of every state of a batch: no more files run than there
    /// are permits; the running files are distinct files that have been
    /// started and have no outcome; and of the files that have been
    /// started, each one either runs or has its outcome.
    pub open spec fn wf(self) -> bool {
        &&& self.running.len() <= self.capacity
        &&& self.dispatched <= self.total() <= usize::MAX
        &&& self.running.no_duplicates()
        &&& forall|k: int|
            0 <= k < self.running.len() ==> (#[trigger] self.running[k]) < self.dispatched
                && self.results[self.running[k] as int] is None
        &&& forall|i: int|
            0 <= i < self.total() ==> ((#[trigger] self.results[i]) is None <==> i
                >= self.dispatched || self.runs(i))
    }

    /// Whether the file with the number `file` runs.
    pub open spec fn runs(self, file: int) -> bool {
        is_among(self.running, file)
    }

    /// The number of permits that are free.
    pub open spec fn permits_free(self) -> int {
        self.capacity - self.running.len()
    }

    /// Whether a further file can be started: one is left, and a permit
    /// is free.
    pub open spec fn can_start(self) -> bool {
        self.dispatched < self.total() && self.running.len() < self.capacity
    }

    /// What the caller is to do next.
    pub open spec fn action(self) -> SchedulerAction {
        if self.can_start() {
            SchedulerAction::Start { index: self.dispatched as usize }
        } else if self.running.len() > 0 {
            SchedulerAction::Wait
        } else {
            SchedulerAction::Finished
        }
    }

    /// The state after the caller has asked what to do: where a file can
    /// be started, it has taken a permit and runs.
    pub open spec fn asked(self) -> SchedulerModel {
        if self.can_start() {
            SchedulerModel {
                dispatched: self.dispatched + 1,
                running: self.running.push(self.dispatched as usize),
                ..self
            }
        } else {
            self
        }
    }

    /// The state after the outcome of the file `index` has been reported:
    /// its permit is free and its outcome is kept. A report for a file
    /// that does not run changes nothing.
    pub open spec fn reported(self, index: usize, outcome: TransferOutcome) -> SchedulerModel {
        if self.running.contains(index) {
            SchedulerModel {
                running: self.running.remove(self.running.index_of(index)),
                results: self.results.update(index as int, Some(outcome)),
                ..self
            }
        } else {
            self
        }
    }

    /// The state after one step of a schedule.
    pub open spec fn after_step(self, step: SchedulerStep) -> SchedulerModel {
        match step {
            SchedulerStep::Ask => self.asked(),
            SchedulerStep::Report { index, outcome } => self.reported(index, outcome),
        }
    }

    /// The state after the steps of a schedule, one after the other.
    pub open spec fn after_steps(self, steps: Seq<SchedulerStep>) -> SchedulerModel
        decreases steps.len(),
    {
        if steps.len() == 0 {
            self
        } else {
            self.after_steps(steps.drop_last()).after_step(steps.last())
        }
    }

    /// Whether every file has its outcome.
    pub open spec fn is_finished(self) -> bool {
        self.dispatched == self.total() && self.running.len() == 0
    }
}

/// The scheduler of one batch. Made by `new`, moved on by `next_action`
/// and `report`.
#[derive(Debug)]
pub struct DownloadScheduler {
    capacity: usize,
    dispatched: usize,
    running: Vec<usize>,
    results: Vec<Option<TransferOutcome>>,
}

impl View for DownloadScheduler {
    type V = SchedulerModel;

    closed spec fn view(&self) -> SchedulerModel {
        SchedulerModel {
            capacity: self.capacity as nat,
            dispatched: self.dispatched as nat,
            running: self.running@,
            results: self.results@,
        }
    }
}

impl DownloadScheduler {
    /// The scheduler of a batch of `total` files, none of them started,
    /// under `MAX_CONCURRENT` permits.
    pub fn new(total: usize) -> (scheduler: DownloadScheduler)
        ensures
            scheduler@ == SchedulerModel::initial(total as nat, MAX_CONCURRENT as nat),
            scheduler@.wf(),
    {
        let mut results: Vec<Option<TransferOutcome>> = Vec::new();
        let mut i: usize = 0;
        while i < total
            invariant
                i <= total,
                results@ == Seq::new(i as nat, |k: int| None::<TransferOutcome>),
            decreases total - i,
        {
            results.push(None);
            i += 1;
            assert(results@ =~= Seq::new(i as nat, |k: int| None::<TransferOutcome>));
        }
        let scheduler = DownloadScheduler {
            capacity: MAX_CONCURRENT,
            dispatched: 0,
            running: Vec::new(),
            results,
        };
        assert(scheduler@.running =~= Seq::<usize>::empty());
        assert(scheduler@ == SchedulerModel::initial(total as nat, MAX_CONCURRENT as nat));
        scheduler
    }

    /// The files that run, in the order of their start.
    pub fn running(&self) -> (running: &Vec<usize>)
        ensures
            running@ == self@.running,
    {
        &self.running
    }

    /// The number of permits that are free.
    pub fn permits_free(&self) -> (n: usize)
        requires
            self@.wf(),
        ensures
            n == self@.permits_free(),
    {
        self.capacity - self.running.len()
    }

    /// The number of transfers that run: the permits in use.
    pub fn running_count(&self) -> (n: usize)
        ensures
            n == self@.running.len(),
    {
        self.running.len()
    }

    /// Whether every file has its outcome.
    pub fn is_finished(&self) -> (b: bool)
        ensures
            b == self@.is_finished(),
    {
        self.dispatched == self.results.len() && self.running.len() == 0
    }

    /// Names what the caller is to do next. Where a file is left and a
    /// permit is free, that file takes the permit and is to be started.
    pub fn next_action(&mut self) -> (action: SchedulerAction)
        requires
            old(self)@.wf(),
        ensures
            action == old(self)@.action(),
            final(self)@ == old(self)@.asked(),
            final(self)@.wf(),
    {
        proof {
            lemma_step_keeps_wf(self@, SchedulerStep::Ask);
        }
        if self.dispatched < self.results.len() && self.running.len() < self.capacity {
            let index = self.dispatched;
            self.running.push(index);
            self.dispatched = index + 1;
            SchedulerAction::Start { index }
        } else if self.running.len() > 0 {
            SchedulerAction::Wait
        } else {
            SchedulerAction::Finished
        }
    }

    /// Takes the outcome of the file `index`: frees its permit and keeps
    /// the outcome. Says whether the file ran; a report for a file that
    /// does not run is not taken.
    pub fn report(&mut self, index: usize, outcome: TransferOutcome) -> (taken: bool)
        requires
            old(self)@.wf(),
        ensures
            taken == old(self)@.running.contains(index),
            final(self)@ == old(self)@.reported(index, outcome),
            final(self)@.wf(),
    {
        let mut k: usize = 0;
        while k < self.running.len()
            invariant
                k <= self.running.len(),
                *self == *old(self),
                self@.wf(),
                forall|j: int| 0 <= j < k ==> self.running@[j] != index,
            decreases self.running.len() - k,
        {
            if self.running[k] == index {
                proof {
                    assert(self@.running[k as int] == index);
                    assert(self@.running.contains(index));
                    let at = self@.running.index_of(index);
                    assert(0 <= at < self@.running.len() && self@.running[at] == index);
                    assert(at == k);
                }
                self.running.remove(k);
                self.results[index] = Some(outcome);
                proof {
                    let after = old(self)@.reported(index, outcome);
                    lemma_step_keeps_wf(old(self)@, SchedulerStep::Report { index, outcome });
                    assert(self@.running =~= after.running);
                    assert(self@.results =~= after.results);
                    assert(self@ == after);
                }
                return true;
            }
            k += 1;
        }
        false
    }

    /// The outcomes of all files, by their numbers, once every file has
    /// its outcome; none before.
    pub fn final_outcomes(&self) -> (outcomes: Option<Vec<TransferOutcome>>)
        ensures
            match outcomes {
                Some(all) => all@.len() == self@.total() && forall|i: int|
                    0 <= i < all@.len() ==> self@.results[i] == Some(#[trigger] all@[i]),
                None => exists|i: int|
                    0 <= i < self@.total() && (#[trigger] self@.results[i]) is None,
            },
    {
        let mut all: Vec<TransferOutcome> = Vec::new();
        let mut i: usize = 0;
        while i < self.results.len()
            invariant
                i <= self.results.len(),
                all@.len() == i,
                forall|k: int| 0 <= k < i ==> self@.results[k] == Some(#[trigger] all@[k]),
            decreases self.results.len() - i,
        {
            match self.results[i] {
                Some(outcome) => {
                    all.push(outcome);
                },
                None => {
                    assert(self@.results[i as int] is None);
                    return None;
                },
            }
            i += 1;
        }
        Some(all)
    }

    /// The outcome of each file, by its number; none for a file that has
    /// none yet.
    pub fn outcomes(&self) -> (results: &Vec<Option<TransferOutcome>>)
        ensures
            results@ == self@.results,
    {
        &self.results
    }
}

/// A step leads from a well-formed state to a well-formed state.
pub proof fn lemma_step_keeps_wf(state: SchedulerModel, step: SchedulerStep)
    requires
        state.wf(),
    ensures
        state.after_step(step).wf(),
        state.after_step(step).capacity == state.capacity,
        state.after_step(step).total() == state.total(),
{
    let after = state.after_step(step);
    match step {
        SchedulerStep::Ask => {
            if state.can_start() {
                let index = state.dispatched as int;
                assert(after.running[state.running.len() as int] == index);
                assert forall|i: int| 0 <= i < after.total() implies ((
                #[trigger] after.results[i]) is None <==> i >= after.dispatched || after.runs(
                    i,
                )) by {
                    if state.runs(i) {
                        let k = choose|k: int|
                            0 <= k < state.running.len() && #[trigger] state.running[k] == i;
                        assert(after.running[k] == i);
                    }
                    if after.runs(i) {
                        let k = choose|k: int|
                            0 <= k < after.running.len() && #[trigger] after.running[k] == i;
                        if k < state.running.len() {
                            assert(state.running[k] == i);
                        }
                    }
                }
            }
        },
        SchedulerStep::Report { index, outcome } => {
            if state.running.contains(index) {
                let at = state.running.index_of(index);
                assert(0 <= at < state.running.len() && state.running[at] == index);
                lemma_removed_running(state, at);
                assert forall|i: int| 0 <= i < after.total() implies ((
                #[trigger] after.results[i]) is None <==> i >= after.dispatched || after.runs(
                    i,
                )) by {
                    if i != index {
                        assert(is_among(after.running, i) <==> is_among(state.running, i));
                    }
                }
            }
        },
    }
}

/// What runs after the running file at position `at` has left: every other
/// running file and no file else, each still once.
proof fn lemma_removed_running(state: SchedulerModel, at: int)
    requires
        state.wf(),
        0 <= at < state.running.len(),
    ensures
        state.running.remove(at).no_duplicates(),
        state.running.remove(at).len() == state.running.len() - 1,
        forall|k: int|
            0 <= k < state.running.remove(at).len() ==> (#[trigger] state.running.remove(at)[k])
                < state.dispatched && state.running.remove(at)[k] != state.running[at]
                && state.results[state.running.remove(at)[k] as int] is None,
        forall|file: int|
            file != state.running[at] ==> (#[trigger] is_among(state.running.remove(at), file)
                <==> is_among(state.running, file)),
        !is_among(state.running.remove(at), state.running[at] as int),
{
    let rest = state.running.remove(at);
    assert forall|k: int| 0 <= k < rest.len() implies (#[trigger] rest[k]) < state.dispatched
        && rest[k] != state.running[at] && state.results[rest[k] as int] is None by {
        let from = if k < at {
            k
        } else {
            k + 1
        };
        assert(rest[k] == state.running[from]);
    }
    assert forall|a: int, b: int| 0 <= a < rest.len() && 0 <= b < rest.len() && a != b implies rest[a]
        != rest[b] by {
        let fa = if a < at {
            a
        } else {
            a + 1
        };
        let fb = if b < at {
            b
        } else {
            b + 1
        };
        assert(rest[a] == state.running[fa]);
        assert(rest[b] == state.running[fb]);
    }
    assert forall|file: int| file != state.running[at] implies (#[trigger] is_among(rest, file)
        <==> is_among(state.running, file)) by {
        if is_among(state.running, file) {
            let k = choose|k: int| 0 <= k < state.running.len() && #[trigger] state.running[k] == file;
            let to = if k < at {
                k
            } else {
                k - 1
            };
            assert(rest[to] == file);
        }
        if is_among(rest, file) {
            let k = choose|k: int| 0 <= k < rest.len() && #[trigger] rest[k] == file;
            let from = if k < at {
                k
            } else {
                k + 1
            };
            assert(state.running[from] == file);
        }
    }
    if is_among(rest, state.running[at] as int) {
        let k = choose|k: int| 0 <= k < rest.len() && #[trigger] rest[k] == state.running[at];
        assert(rest[k] != state.running[at]);
    }
}

/// The concurrency budget holds under every schedule: whatever the
/// caller asks and reports, in whatever order, no more than
/// `MAX_CONCURRENT` transfers run at any time.
pub proof fn lemma_never_more_than_the_budget(total: nat, steps: Seq<SchedulerStep>)
    requires
        total <= usize::MAX,
    ensures
        SchedulerModel::initial(total, MAX_CONCURRENT as nat).after_steps(steps).wf(),
        SchedulerModel::initial(total, MAX_CONCURRENT as nat).after_steps(steps).capacity
            == MAX_CONCURRENT,
        SchedulerModel::initial(total, MAX_CONCURRENT as nat).after_steps(steps).total() == total,
        SchedulerModel::initial(total, MAX_CONCURRENT as nat).after_steps(steps).running.len()
            <= MAX_CONCURRENT,
    decreases steps.len(),
{
    let start = SchedulerModel::initial(total, MAX_CONCURRENT as nat);
    if steps.len() > 0 {
        lemma_never_more_than_the_budget(total, steps.drop_last());
        lemma_step_keeps_wf(start.after_steps(steps.drop_last()), steps.last());
    }
}

/// Files are started in the order of their numbers, each once: the file
/// that is started is the first that has not been started, and with it one
/// more file has been started and runs.
pub proof fn lemma_files_start_in_their_order(state: SchedulerModel)
    requires
        state.wf(),
        state.can_start(),
    ensures
        state.action() == (SchedulerAction::Start { index: state.dispatched as usize }),
        state.asked().dispatched == state.dispatched + 1,
        state.asked().running == state.running.push(state.dispatched as usize),
        !state.running.contains(state.dispatched as usize),
        state.asked().results == state.results,
{
    if state.running.contains(state.dispatched as usize) {
        let k = choose|k: int|
            0 <= k < state.running.len() && state.running[k] == state.dispatched as usize;
        assert(state.running[k] < state.dispatched);
    }
}

/// No outcome holds up the other files: when the outcome of a running
/// file is reported, be it success or failure, its permit is free, every
/// other running file runs on, no other outcome changes, and a file that
/// is left can be started.
pub proof fn lemma_report_frees_a_permit(
    state: SchedulerModel,
    index: usize,
    outcome: TransferOutcome,
)
    requires
        state.wf(),
        state.running.contains(index),
    ensures
        ({
            let after = state.reported(index, outcome);
            &&& after.running.len() == state.running.len() - 1
            &&& after.results[index as int] == Some(outcome)
            &&& forall|other: usize|
                other != index ==> (after.running.contains(other) <==> state.running.contains(
                    other,
                ))
            &&& forall|i: int|
                0 <= i < state.total() && i != index ==> after.results[i] == state.results[i]
            &&& after.dispatched < after.total() ==> after.action() == (SchedulerAction::Start {
                index: after.dispatched as usize,
            })
        }),
{
    let after = state.reported(index, outcome);
    let at = state.running.index_of(index);
    assert(0 <= at < state.running.len() && state.running[at] == index);
    lemma_removed_running(state, at);
    assert forall|other: usize| other != index implies (after.running.contains(other)
        <==> state.running.contains(other)) by {
        assert(is_among(after.running, other as int) <==> is_among(state.running, other as int));
        if state.running.contains(other) {
            let k = choose|k: int| 0 <= k < state.running.len() && state.running[k] == other;
            assert(state.runs(other as int));
            let j = choose|j: int| 0 <= j < after.running.len() && #[trigger] after.running[j] == other;
        }
        if after.running.contains(other) {
            let k = choose|k: int| 0 <= k < after.running.len() && after.running[k] == other;
            assert(after.runs(other as int));
            let j = choose|j: int| 0 <= j < state.running.len() && #[trigger] state.running[j] == other;
        }
    }
}

/// Each file gets its outcome once: the outcome of a file that has one is
/// not replaced, whatever is reported later.
pub proof fn lemma_outcome_is_kept(state: SchedulerModel, step: SchedulerStep, file: int)
    requires
        state.wf(),
        0 <= file < state.total(),
        state.results[file] is Some,
    ensures
        state.after_step(step).results[file] == state.results[file],
{
    match step {
        SchedulerStep::Ask => {},
        SchedulerStep::Report { index, outcome } => {
            if state.running.contains(index) {
                let at = state.running.index_of(index);
                assert(0 <= at < state.running.len() && state.running[at] == index);
            }
        },
    }
}

/// A batch that is finished has an outcome for every file.
pub proof fn lemma_finished_batch_is_complete(state: SchedulerModel)
    requires
        state.wf(),
        state.is_finished(),
    ensures
        state.action() == SchedulerAction::Finished,
        forall|i: int| 0 <= i < state.total() ==> (#[trigger] state.results[i]) is Some,
{
    assert forall|i: int| 0 <= i < state.total() implies (#[trigger] state.results[i]) is Some by {
        assert(!state.runs(i));
    }
}

} // verus!
