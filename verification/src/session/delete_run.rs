//! Deleting the selected remote entries: without the recursive flag every selected
//! folder is first checked for contents, then the entries are deleted in order
//! until the first failure, counting what was deleted.
use vstd::prelude::*;
use crate::models::DeleteRemoteEntriesRequest;
use crate::text::same_text;
use crate::transfer::queue::{first_index, lemma_first_index_is, lemma_first_index_none};
use super::failure::RemoteFailure;

verus! {

/// What the deletion asks for next.
pub enum DeleteStep {
    /// List selected folder number `i`: if it holds anything, ask before deleting.
    CheckEmpty(usize),
    /// Delete selected entry number `i`.
    Remove(usize),
    /// Nothing more to do: refresh the pane and report.
    Finish,
}

/// How far the deletion of a request's entries has come.
pub struct DeleteRun {
    /// Selected folders are still being checked for contents.
    pub checking: bool,
    /// The next entry to look at.
    pub next: usize,
    /// How many entries were deleted so far.
    pub deleted: usize,
    /// The failure that stopped the deletion, if one did.
    pub first_error: Option<RemoteFailure>,
}

/// Selected entry `j` of `request` is a folder.
pub open spec fn selected_folder(request: DeleteRemoteEntriesRequest, j: int) -> bool {
    request.entries@[j].entry_kind@ == "dir"@
}

/// The first selected folder at or after `from`.
pub open spec fn folder_from(request: DeleteRemoteEntriesRequest, from: int) -> Option<int> {
    first_index(request.entries@.len() as int, |j: int| from <= j && selected_folder(request, j))
}

/// The step after the checks: delete entry `run.next`, or finish when a failure
/// stopped the run or every entry was taken.
pub open spec fn removal_step(request: DeleteRemoteEntriesRequest, run: DeleteRun, step: DeleteStep, after: DeleteRun) -> bool {
    if run.first_error is Some || run.next >= request.entries@.len() {
        step is Finish && after == DeleteRun { checking: false, ..run }
    } else {
        step == DeleteStep::Remove(run.next) && after == DeleteRun { checking: false, next: (run.next + 1) as usize, ..run }
    }
}

impl DeleteRun {
    /// A fresh run for `request`: it checks folders first unless the request is recursive.
    pub fn start(request: &DeleteRemoteEntriesRequest) -> (r: DeleteRun)
        ensures
            r == (DeleteRun { checking: !request.recursive, next: 0, deleted: 0, first_error: None }),
    {
        DeleteRun { checking: !request.recursive, next: 0, deleted: 0, first_error: None }
    }

    /// The next step. While checking, it is the next selected folder to list;
    /// once none is left the entries are deleted from the first on, one at a time,
    /// until a failure stops the run or all were taken.
    pub fn next_step(&mut self, request: &DeleteRemoteEntriesRequest) -> (r: DeleteStep)
        requires
            old(self).next <= request.entries@.len(),
        ensures
            final(self).next <= request.entries@.len(),
            old(self).checking && folder_from(*request, old(self).next as int) is Some ==> {
                let i = folder_from(*request, old(self).next as int)->0;
                r == DeleteStep::CheckEmpty(i as usize)
                    && *final(self) == (DeleteRun { next: (i + 1) as usize, ..*old(self) })
            },
            old(self).checking && folder_from(*request, old(self).next as int) is None ==>
                removal_step(*request, DeleteRun { next: 0, ..*old(self) }, r, *final(self)),
            !old(self).checking ==> removal_step(*request, *old(self), r, *final(self)),
    {
        if self.checking {
            let ghost p = |j: int| old(self).next as int <= j && selected_folder(*request, j);
            let mut i = self.next;
            while i < request.entries.len()
                invariant
                    *self == *old(self),
                    old(self).checking,
                    self.next <= i <= request.entries.len(),
                    p == (|j: int| old(self).next as int <= j && selected_folder(*request, j)),
                    forall|k: int| 0 <= k < i ==> !#[trigger] p(k),
                decreases request.entries.len() - i,
            {
                if same_text(request.entries[i].entry_kind.as_str(), "dir") {
                    proof {
                        lemma_first_index_is(request.entries@.len() as int, p, i as int);
                    }
                    self.next = i + 1;
                    return DeleteStep::CheckEmpty(i);
                }
                i += 1;
            }
            proof {
                lemma_first_index_none(request.entries@.len() as int, p);
            }
            self.next = 0;
        }
        self.checking = false;
        if self.first_error.is_some() || self.next >= request.entries.len() {
            return DeleteStep::Finish;
        }
        let i = self.next;
        self.next = i + 1;
        DeleteStep::Remove(i)
    }

    /// Records how deleting an entry went: on success its count of deleted
    /// entries is added, a failure stops the run.
    pub fn removed(&mut self, outcome: Result<usize, RemoteFailure>)
        requires
            old(self).first_error is None,
            outcome matches Ok(n) ==> old(self).deleted + n <= usize::MAX,
        ensures
            match outcome {
                Ok(n) => *final(self) == (DeleteRun { deleted: (old(self).deleted + n) as usize, ..*old(self) }),
                Err(f) => *final(self) == (DeleteRun { first_error: Some(f), ..*old(self) }),
            },
    {
        match outcome {
            Ok(n) => self.deleted = self.deleted + n,
            Err(f) => self.first_error = Some(f),
        }
    }
}

/// A failure ends the deletion: once a failure is recorded, the next step is to
/// finish, and nothing more is deleted.
pub proof fn lemma_failure_stops_deletion(request: DeleteRemoteEntriesRequest, run: DeleteRun, step: DeleteStep, after: DeleteRun)
    requires
        run.first_error is Some,
        removal_step(request, run, step, after),
    ensures
        step is Finish,
        after.first_error == run.first_error,
        after.deleted == run.deleted,
{
}

} // verus!
