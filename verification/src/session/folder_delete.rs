//! Deleting a remote folder with everything in it, depth first: a folder is
//! listed, its files removed and its subfolders queued, and it is removed itself
//! once everything queued after it is gone.
use vstd::prelude::*;
use crate::remote_path::{child_path, joined, valid_entry_name};
use crate::text::owned;
use super::failure::RemoteFailure;

verus! {

/// A folder waiting to be deleted; `listed` once its contents have been queued.
pub struct PendingFolder {
    pub path: String,
    pub listed: bool,
}

/// A recursive deletion in progress: the folders still to handle, the last one
/// next, and how many entries are gone so far.
pub struct FolderDeletion {
    pub pending: Vec<PendingFolder>,
    pub deleted_count: usize,
}

/// What the deletion asks for next.
pub enum DeletionStep {
    /// Remove this folder, whose contents are gone.
    RemoveFolder(String),
    /// List this folder and report its entries.
    ListFolder(String),
    /// Nothing is left.
    Finished,
}

/// One entry of a listed folder.
pub struct ListedChild {
    pub name: String,
    pub is_dir: bool,
}

/// What to do for one entry of a listed folder.
pub enum ChildAction {
    /// Remove this file.
    RemoveFile(String),
    /// Stop: the entry's name cannot be used in a path.
    BadName(String),
}

/// The pending folders as `(path, listed)` pairs.
pub open spec fn pending_view(d: FolderDeletion) -> Seq<(Seq<char>, bool)> {
    Seq::new(d.pending@.len(), |i: int| (d.pending@[i].path@, d.pending@[i].listed))
}

/// Listed entries as `(name, is_dir)` pairs.
pub open spec fn children_view(children: Seq<ListedChild>) -> Seq<(Seq<char>, bool)> {
    Seq::new(children.len(), |i: int| (children[i].name@, children[i].is_dir))
}

/// Actions as `(is_file_removal, text)` pairs: the path of a file to remove, or
/// the message of a bad name.
pub open spec fn actions_view(actions: Seq<ChildAction>) -> Seq<(bool, Seq<char>)> {
    Seq::new(actions.len(), |i: int| match actions[i] {
        ChildAction::RemoveFile(p) => (true, p@),
        ChildAction::BadName(m) => (false, m@),
    })
}

/// The folders queued and the actions asked for when the entries `taken` of
/// `parent` are handled in turn: folders are queued, files removed, and the first
/// bad name stops the handling.
pub open spec fn child_plan(parent: Seq<char>, taken: Seq<(Seq<char>, bool)>) -> (Seq<Seq<char>>, Seq<(bool, Seq<char>)>)
    decreases taken.len(),
{
    if taken.len() == 0 {
        (Seq::empty(), Seq::empty())
    } else {
        let (dirs, acts) = child_plan(parent, taken.drop_last());
        let (name, is_dir) = taken.last();
        if acts.len() > 0 && !acts.last().0 {
            (dirs, acts)
        } else if !valid_entry_name(name) {
            (dirs, acts.push((false, "invalid target name"@)))
        } else if is_dir {
            (dirs.push(joined(parent, name)), acts)
        } else {
            (dirs, acts.push((true, joined(parent, name))))
        }
    }
}

/// Folders as pending entries that are not listed yet.
pub open spec fn unlisted(dirs: Seq<Seq<char>>) -> Seq<(Seq<char>, bool)> {
    Seq::new(dirs.len(), |i: int| (dirs[i], false))
}

impl FolderDeletion {
    /// A deletion of the folder `root`, with nothing deleted yet.
    pub fn start(root: &str) -> (r: FolderDeletion)
        ensures
            pending_view(r) == seq![(root@, false)],
            r.deleted_count == 0,
    {
        let mut pending: Vec<PendingFolder> = Vec::new();
        pending.push(PendingFolder { path: owned(root), listed: false });
        let r = FolderDeletion { pending, deleted_count: 0 };
        assert(pending_view(r) =~= seq![(root@, false)]);
        r
    }

    /// Takes the last pending folder: a listed one is to be removed; an unlisted
    /// one is to be listed and stays queued, now marked as listed.
    pub fn next_step(&mut self) -> (r: DeletionStep)
        ensures
            final(self).deleted_count == old(self).deleted_count,
            ({
                let before = pending_view(*old(self));
                let after = pending_view(*final(self));
                if before.len() == 0 {
                    r is Finished && after == before
                } else if before.last().1 {
                    r matches DeletionStep::RemoveFolder(p) && p@ == before.last().0 && after == before.drop_last()
                } else {
                    r matches DeletionStep::ListFolder(p) && p@ == before.last().0
                        && after == before.drop_last().push((before.last().0, true))
                }
            }),
    {
        let ghost before = pending_view(*self);
        match self.pending.pop() {
            None => {
                assert(pending_view(*self) =~= before);
                DeletionStep::Finished
            },
            Some(f) => {
                if f.listed {
                    assert(pending_view(*self) =~= before.drop_last());
                    DeletionStep::RemoveFolder(f.path)
                } else {
                    let path = f.path.clone();
                    self.pending.push(PendingFolder { path: f.path, listed: true });
                    assert(pending_view(*self) =~= before.drop_last().push((before.last().0, true)));
                    DeletionStep::ListFolder(path)
                }
            },
        }
    }

    /// Counts one removed file or folder.
    pub fn entry_removed(&mut self)
        requires
            old(self).deleted_count < usize::MAX,
        ensures
            final(self).deleted_count == old(self).deleted_count + 1,
            pending_view(*final(self)) == pending_view(*old(self)),
    {
        self.deleted_count = self.deleted_count + 1;
    }

    /// Handles the entries of the listed folder `parent`, last entry first:
    /// subfolders are queued and the files to remove are returned in order; a bad
    /// name ends the list.
    pub fn children_listed(&mut self, parent: &str, children: &Vec<ListedChild>) -> (r: Vec<ChildAction>)
        ensures
            final(self).deleted_count == old(self).deleted_count,
            ({
                let (dirs, acts) = child_plan(parent@, children_view(children@).reverse());
                &&& pending_view(*final(self)) == pending_view(*old(self)) + unlisted(dirs)
                &&& actions_view(r@) == acts
            }),
    {
        let ghost rc = children_view(children@).reverse();
        let ghost start = pending_view(*self);
        let mut actions: Vec<ChildAction> = Vec::new();
        let mut stopped = false;
        let mut i: usize = 0;
        let n = children.len();
        while i < n
            invariant
                n == children.len(),
                rc == children_view(children@).reverse(),
                i <= n,
                self.deleted_count == old(self).deleted_count,
                start == pending_view(*old(self)),
                ({
                    let (dirs, acts) = child_plan(parent@, rc.take(i as int));
                    &&& pending_view(*self) == start + unlisted(dirs)
                    &&& actions_view(actions@) == acts
                    &&& stopped == (acts.len() > 0 && !acts.last().0)
                }),
            decreases n - i,
        {
            let ghost prev = rc.take(i as int);
            let ghost before_pending = pending_view(*self);
            let ghost before_actions = actions@;
            assert(rc.take(i + 1).drop_last() =~= prev);
            assert(rc.take(i + 1).last() == rc[i as int]);
            assert(rc[i as int] == (children@[n - 1 - i].name@, children@[n - 1 - i].is_dir));
            if !stopped {
                let child = &children[n - 1 - i];
                match child_path(parent, child.name.as_str()) {
                    Ok(p) => {
                        if child.is_dir {
                            self.pending.push(PendingFolder { path: p, listed: false });
                            proof {
                                let (dirs, acts) = child_plan(parent@, prev);
                                assert(unlisted(dirs.push(joined(parent@, child.name@))) =~= unlisted(dirs).push((joined(parent@, child.name@), false)));
                                assert(pending_view(*self) =~= before_pending.push((joined(parent@, child.name@), false)));
                            }
                        } else {
                            actions.push(ChildAction::RemoveFile(p));
                            proof {
                                assert(pending_view(*self) =~= before_pending);
                                assert(actions_view(actions@) =~= actions_view(before_actions).push((true, joined(parent@, child.name@))));
                            }
                        }
                    },
                    Err(e) => {
                        actions.push(ChildAction::BadName(e));
                        stopped = true;
                        proof {
                            assert(pending_view(*self) =~= before_pending);
                            assert(actions_view(actions@) =~= actions_view(before_actions).push((false, "invalid target name"@)));
                        }
                    },
                }
            }
            i += 1;
        }
        assert(rc.take(n as int) =~= rc);
        actions
    }

    /// The failure reported when the deletion stops at `failed_path` for `reason`,
    /// with the count of entries removed so far.
    pub fn failure_at(&self, failed_path: &str, reason: RemoteFailure) -> (r: RemoteFailure)
        ensures
            r matches RemoteFailure::PartialDelete { deleted_count, failed_path: p, reason: why }
                && deleted_count == self.deleted_count && p@ == failed_path@ && *why == reason,
    {
        RemoteFailure::PartialDelete {
            deleted_count: self.deleted_count,
            failed_path: owned(failed_path),
            reason: Box::new(reason),
        }
    }
}

} // verus!
