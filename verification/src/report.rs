//! The report of a batch: how many files succeeded, which failed and why,
//! and the failure that stands for the whole batch.

use vstd::prelude::*;
use crate::text::{chars_of, last_position_of, lemma_last_position_of, rfind, slice_of, string_of};
use crate::transfer::{TransferError, TransferOutcome};

verus! {

/// A file whose transfer failed: its number in the batch, and the cause.
#[derive(Clone, Copy, Debug, PartialEq, Eq, Structural)]
pub struct FailedFile {
    pub index: usize,
    pub cause: TransferError,
}

/// The outcomes of a batch, summed up.
#[derive(Clone, Debug, PartialEq, Eq)]
pub struct BatchReport {
    /// The number of files that are complete.
    pub succeeded: usize,
    /// The files that failed, in the order of their numbers.
    pub failures: Vec<FailedFile>,
}

/// The failed files among `outcomes`, in order, each with its position.
pub open spec fn failures_of(outcomes: Seq<TransferOutcome>) -> Seq<FailedFile>
    decreases outcomes.len(),
{
    if outcomes.len() == 0 {
        Seq::empty()
    } else {
        match outcomes.last() {
            TransferOutcome::Failed { cause } => failures_of(outcomes.drop_last()).push(
                FailedFile { index: (outcomes.len() - 1) as usize, cause },
            ),
            TransferOutcome::Success { final_size } => failures_of(outcomes.drop_last()),
        }
    }
}

/// The number of successes among `outcomes`.
pub open spec fn successes_of(outcomes: Seq<TransferOutcome>) -> nat
    decreases outcomes.len(),
{
    if outcomes.len() == 0 {
        0
    } else {
        successes_of(outcomes.drop_last()) + if outcomes.last() is Success {
            1nat
        } else {
            0nat
        }
    }
}

/// Every outcome is counted once, as a success or as a failure; the
/// failures stand in the order of their files, each with the cause of its
/// file; and the first of them belongs to the first file that failed.
pub proof fn lemma_failures_of(outcomes: Seq<TransferOutcome>)
    requires
        outcomes.len() <= usize::MAX,
    ensures
        successes_of(outcomes) + failures_of(outcomes).len() == outcomes.len(),
        forall|k: int|
            0 <= k < failures_of(outcomes).len() ==> {
                let failed = #[trigger] failures_of(outcomes)[k];
                &&& failed.index < outcomes.len()
                &&& outcomes[failed.index as int] == (TransferOutcome::Failed {
                    cause: failed.cause,
                })
            },
        forall|j: int, k: int|
            0 <= j < k < failures_of(outcomes).len() ==> failures_of(outcomes)[j].index
                < failures_of(outcomes)[k].index,
        forall|i: int|
            0 <= i < outcomes.len() && (#[trigger] outcomes[i]) is Failed ==> failures_of(
                outcomes,
            ).len() > 0 && failures_of(outcomes)[0].index <= i,
    decreases outcomes.len(),
{
    if outcomes.len() > 0 {
        let head = outcomes.drop_last();
        lemma_failures_of(head);
        assert(forall|i: int| 0 <= i < head.len() ==> head[i] == outcomes[i]);
        let all = failures_of(outcomes);
        assert forall|k: int| 0 <= k < all.len() implies {
            let failed = #[trigger] all[k];
            &&& failed.index < outcomes.len()
            &&& outcomes[failed.index as int] == (TransferOutcome::Failed { cause: failed.cause })
        } by {
            if k < failures_of(head).len() {
                assert(all[k] == failures_of(head)[k]);
            }
        }
        assert forall|j: int, k: int| 0 <= j < k < all.len() implies all[j].index
            < all[k].index by {
            assert(all[j] == failures_of(head)[j]);
            if k < failures_of(head).len() {
                assert(all[k] == failures_of(head)[k]);
            }
        }
        assert forall|i: int| 0 <= i < outcomes.len() && (#[trigger] outcomes[i]) is Failed implies
            all.len() > 0 && all[0].index <= i by {
            if i < head.len() {
                assert(head[i] is Failed);
                assert(all[0] == failures_of(head)[0]);
            } else if failures_of(head).len() > 0 {
                assert(all[0] == failures_of(head)[0]);
            }
        }
    }
}

/// Sums up the outcomes of a batch.
pub fn aggregate(outcomes: &Vec<TransferOutcome>) -> (report: BatchReport)
    ensures
        report.failures@ == failures_of(outcomes@),
        report.succeeded == successes_of(outcomes@),
        report.succeeded + report.failures.len() == outcomes.len(),
{
    let mut succeeded: usize = 0;
    let mut failures: Vec<FailedFile> = Vec::new();
    let mut i: usize = 0;
    assert(outcomes@.take(0) == Seq::<TransferOutcome>::empty());
    while i < outcomes.len()
        invariant
            i <= outcomes.len(),
            failures@ == failures_of(outcomes@.take(i as int)),
            succeeded == successes_of(outcomes@.take(i as int)),
            succeeded + failures.len() == i,
        decreases outcomes.len() - i,
    {
        assert(outcomes@.take(i as int + 1).drop_last() == outcomes@.take(i as int));
        assert(outcomes@.take(i as int + 1).last() == outcomes@[i as int]);
        match outcomes[i] {
            TransferOutcome::Failed { cause } => {
                failures.push(FailedFile { index: i, cause });
            },
            TransferOutcome::Success { final_size } => {
                succeeded += 1;
            },
        }
        i += 1;
    }
    assert(outcomes@.take(outcomes.len() as int) == outcomes@);
    BatchReport { succeeded, failures }
}

impl BatchReport {
    /// The failure that stands for the whole batch: that of the first
    /// file that failed. None where every file succeeded.
    pub fn first_failure(&self) -> (first: Option<FailedFile>)
        ensures
            first == if self.failures@.len() > 0 {
                Some(self.failures@[0])
            } else {
                None
            },
    {
        if self.failures.len() > 0 {
            Some(self.failures[0])
        } else {
            None
        }
    }

    /// The verdict on the batch: the number of files that succeeded where
    /// none failed, else the cause of the first failure.
    pub fn verdict(&self) -> (verdict: Result<usize, TransferError>)
        ensures
            verdict == if self.failures@.len() > 0 {
                Err::<usize, TransferError>(self.failures@[0].cause)
            } else {
                Ok::<usize, TransferError>(self.succeeded)
            },
    {
        match self.first_failure() {
            Some(failed) => Err(failed.cause),
            None => Ok(self.succeeded),
        }
    }
}

/// The last segment of the path of `url`: what stands behind its last
/// `/`, all of it where it has none.
pub open spec fn last_segment(url: Seq<char>) -> Seq<char> {
    match last_position_of(url, '/') {
        Some(p) => url.skip(p + 1),
        None => url,
    }
}

/// The name under which the file at `url` is kept: the last segment of
/// the URL's path.
pub fn file_name_of(url: &str) -> (name: String)
    ensures
        name@ == last_segment(url@),
{
    let text = chars_of(url);
    let from: usize = match rfind(&text, '/') {
        Some(p) => {
            proof {
                lemma_last_position_of(text@, '/');
            }
            p + 1
        },
        None => 0,
    };
    let name = slice_of(&text, from, text.len());
    assert(text@.subrange(from as int, text@.len() as int) == text@.skip(from as int));
    assert(text@.skip(0) == text@);
    string_of(&name)
}

} // verus!
