//! Removing matched directories through a backend.
use vstd::prelude::*;

use crate::domain::{
    path_views, size_of, DeleteFailure, DeleteRequest, DeleteResult, DeleteStrategy,
    ScanItem,
};
use crate::error::{failure_of, message_spec, RepoSweepError};
use crate::fspath::FsPath;

verus! {

/// Something that removes a path from disk.
pub trait DeletionBackend {
    /// Whether `outcome` (no error, or the error) is an answer this backend
    /// may give when asked to remove the path `path` as `strategy` says. A
    /// backend that states nothing may give any answer.
    open spec fn answers(
        &self,
        path: Seq<Seq<char>>,
        strategy: DeleteStrategy,
        outcome: Option<RepoSweepError>,
    ) -> bool {
        true
    }

    /// Removes `path` as `strategy` says.
    fn delete(&self, path: &FsPath, strategy: DeleteStrategy) -> (r: Result<(), RepoSweepError>)
        ensures
            self.answers(path@, strategy, failure_of(r)),
    ;
}

/// How the file-system backend removes one path.
#[derive(Clone, Copy, Debug, PartialEq, Eq, Structural)]
pub enum DeleteAction {
    /// Move the path to the platform's trash.
    MoveToTrash,
    /// Remove a directory with everything below it.
    RemoveDir,
    /// Remove a single file.
    RemoveFile,
}

/// Why the file-system backend failed to remove a path.
#[derive(Debug)]
pub enum DeleteFault {
    /// The trash refused the path, with its message.
    Trash(String),
    /// The file system refused the removal.
    Io(std::io::Error),
}

/// The backend that removes paths from the local file system.
#[derive(Clone, Copy, Debug, Default)]
pub struct FsDeletionBackend;

impl FsDeletionBackend {
    /// What to do with a path: trash it for `Trash`; otherwise remove it as a
    /// directory when it is one (`is_dir`), else as a file.
    pub fn action(&self, strategy: DeleteStrategy, is_dir: bool) -> (r: DeleteAction)
        ensures
            strategy == DeleteStrategy::Trash ==> r == DeleteAction::MoveToTrash,
            strategy == DeleteStrategy::Permanent && is_dir ==> r == DeleteAction::RemoveDir,
            strategy == DeleteStrategy::Permanent && !is_dir ==> r == DeleteAction::RemoveFile,
    {
        match strategy {
            DeleteStrategy::Trash => DeleteAction::MoveToTrash,
            DeleteStrategy::Permanent => if is_dir {
                DeleteAction::RemoveDir
            } else {
                DeleteAction::RemoveFile
            },
        }
    }

    /// The error for a failed removal of `path` by `action`: a trash failure
    /// keeps the trash's message; a file-system failure names the operation
    /// that failed.
    pub fn failure(&self, action: DeleteAction, path: FsPath, fault: DeleteFault) -> (r:
        RepoSweepError)
        ensures
            fault matches DeleteFault::Trash(m) ==> r == (RepoSweepError::Delete {
                path,
                message: m,
            }),
            fault is Io ==> (r matches RepoSweepError::Io { operation, path: p, .. } && p
                == path && operation@ == (if action == DeleteAction::RemoveDir {
                "remove dir"@
            } else {
                "remove file"@
            })),
    {
        match fault {
            DeleteFault::Trash(message) => RepoSweepError::Delete { path, message },
            DeleteFault::Io(source) => {
                let operation = if action == DeleteAction::RemoveDir {
                    "remove dir"
                } else {
                    "remove file"
                };
                proof {
                    reveal_strlit("remove dir");
                    reveal_strlit("remove file");
                }
                RepoSweepError::Io { operation, path, source }
            },
        }
    }
}

/// Whether `text` is what an error shows: exactly its message, or for an
/// I/O error its message followed by the system's description.
pub open spec fn shows_error(text: Seq<char>, e: RepoSweepError) -> bool {
    if e is Io {
        message_spec(e).is_prefix_of(text)
    } else {
        text == message_spec(e)
    }
}

/// `a + b`, or `u64::MAX` when that overflows.
pub open spec fn saturating_add(a: nat, b: nat) -> nat {
    if a + b > u64::MAX {
        u64::MAX as nat
    } else {
        a + b
    }
}

/// The paths of the items whose removal succeeded (`outcomes[i]` is `None`).
pub open spec fn removed_paths(items: Seq<ScanItem>, outcomes: Seq<Option<RepoSweepError>>) -> Seq<
    Seq<Seq<char>>,
>
    decreases items.len(),
{
    if items.len() == 0 {
        Seq::empty()
    } else {
        let rest = removed_paths(items.drop_last(), outcomes.drop_last());
        if outcomes.last() is None {
            rest.push(items.last().path@)
        } else {
            rest
        }
    }
}

/// The paths of the items whose removal failed, each with its error.
pub open spec fn refused(items: Seq<ScanItem>, outcomes: Seq<Option<RepoSweepError>>) -> Seq<
    (Seq<Seq<char>>, RepoSweepError),
>
    decreases items.len(),
{
    if items.len() == 0 {
        Seq::empty()
    } else {
        let rest = refused(items.drop_last(), outcomes.drop_last());
        match outcomes.last() {
            Some(e) => rest.push((items.last().path@, e)),
            None => rest,
        }
    }
}

/// The bytes freed by the removed items, added up without overflow.
pub open spec fn reclaimed(items: Seq<ScanItem>, outcomes: Seq<Option<RepoSweepError>>) -> nat
    decreases items.len(),
{
    if items.len() == 0 {
        0
    } else {
        let rest = reclaimed(items.drop_last(), outcomes.drop_last());
        if outcomes.last() is None {
            saturating_add(rest, size_of(items.last()))
        } else {
            rest
        }
    }
}

/// Whether `r` is the result of removing `items` with these outcomes: the
/// removed paths in order, the refused ones in order with the text of their
/// errors, and the bytes freed.
pub open spec fn is_delete_result(
    r: DeleteResult,
    items: Seq<ScanItem>,
    outcomes: Seq<Option<RepoSweepError>>,
) -> bool {
    let failed = refused(items, outcomes);
    &&& path_views(r.deleted@) == removed_paths(items, outcomes)
    &&& r.failed@.len() == failed.len()
    &&& forall|j: int|
        0 <= j < failed.len() ==> {
            &&& (#[trigger] r.failed@[j]).path@ == failed[j].0
            &&& shows_error(r.failed@[j].message@, failed[j].1)
        }
    &&& r.reclaimed_bytes == reclaimed(items, outcomes)
}

/// Takes in what happened to one item: a success counts the item's bytes
/// (without overflow) and lists its path as deleted; a failure lists the
/// path with the error's text.
pub fn record_outcome(result: &mut DeleteResult, item: ScanItem, outcome: Result<(), RepoSweepError>)
    ensures
        outcome is Ok ==> final(result).reclaimed_bytes == saturating_add(
            old(result).reclaimed_bytes as nat,
            size_of(item),
        ),
        outcome is Ok ==> final(result).deleted@ == old(result).deleted@.push(item.path),
        outcome is Ok ==> final(result).failed == old(result).failed,
        outcome matches Err(e) ==> {
            &&& final(result).failed@.len() == old(result).failed@.len() + 1
            &&& final(result).failed@.drop_last() == old(result).failed@
            &&& final(result).failed@.last().path == item.path
            &&& shows_error(final(result).failed@.last().message@, e)
        },
        outcome is Err ==> final(result).deleted == old(result).deleted,
        outcome is Err ==> final(result).reclaimed_bytes == old(result).reclaimed_bytes,
{
    match outcome {
        Ok(()) => {
            let bytes = match item.bytes {
                Some(b) => b,
                None => 0,
            };
            result.reclaimed_bytes = result.reclaimed_bytes.saturating_add(bytes);
            result.deleted.push(item.path);
        },
        Err(error) => {
            let message = error.message();
            result.failed.push(DeleteFailure { path: item.path, message });
        },
    }
}

/// Deletes items through a backend.
pub struct DeleteService<B> {
    backend: B,
}

impl<B: DeletionBackend> DeleteService<B> {
    /// A service over `backend`.
    pub fn new(backend: B) -> (r: Self)
        ensures
            r.backend() == backend,
    {
        DeleteService { backend }
    }

    /// The backend of this service.
    pub closed spec fn backend(&self) -> B {
        self.backend
    }

    /// Asks the backend to remove each item in turn, with the request's
    /// strategy, and gathers what happened: the outcome of each item is an
    /// answer of the backend for that item's path and the request's strategy;
    /// every item ends up either deleted or failed, in order, a failure never
    /// stops the items after it, and the freed bytes are those of the deleted
    /// items.
    pub fn delete(&self, request: DeleteRequest) -> (r: DeleteResult)
        ensures
            exists|outcomes: Seq<Option<RepoSweepError>>|
                {
                    &&& outcomes.len() == request.items@.len()
                    &&& #[trigger] is_delete_result(r, request.items@, outcomes)
                    &&& forall|i: int|
                        0 <= i < outcomes.len() ==> self.backend().answers(
                            request.items@[i].path@,
                            request.strategy,
                            #[trigger] outcomes[i],
                        )
                },
    {
        let mut result = DeleteResult { deleted: Vec::new(), failed: Vec::new(), reclaimed_bytes: 0 };
        let ghost items = request.items@;
        let ghost mut outcomes: Seq<Option<RepoSweepError>> = Seq::empty();
        let strategy = request.strategy;
        let mut queue = request.items;
        let n = queue.len();
        let mut i: usize = 0;
        assert(path_views(result.deleted@) =~= Seq::<Seq<Seq<char>>>::empty());
        while i < n
            invariant
                n == items.len(),
                i <= n,
                queue@ == items,
                outcomes.len() == i,
                is_delete_result(result, items.take(i as int), outcomes),
                strategy == request.strategy,
                forall|k: int|
                    0 <= k < i ==> self.backend().answers(
                        items[k].path@,
                        strategy,
                        #[trigger] outcomes[k],
                    ),
            decreases n - i,
        {
            let item = queue[i].duplicate();
            let outcome = self.backend.delete(&item.path, strategy);
            let ghost taken = items.take(i + 1);
            let ghost before = result;
            let ghost o = failure_of(outcome);
            assert(taken.drop_last() =~= items.take(i as int));
            assert(outcomes.push(o).drop_last() =~= outcomes);
            record_outcome(&mut result, item, outcome);
            proof {
                outcomes = outcomes.push(o);
                assert(size_of(taken.last()) == size_of(items[i as int]));
                if o is None {
                    assert(path_views(result.deleted@) =~= path_views(before.deleted@).push(
                        items[i as int].path@,
                    ));
                } else {
                    assert(path_views(result.deleted@) =~= path_views(before.deleted@));
                    let failed = refused(taken, outcomes);
                    assert forall|j: int| 0 <= j < failed.len() implies {
                        &&& (#[trigger] result.failed@[j]).path@ == failed[j].0
                        &&& shows_error(result.failed@[j].message@, failed[j].1)
                    } by {
                        if j < failed.len() - 1 {
                            assert(result.failed@[j] == before.failed@[j]);
                        }
                    }
                }
            }
            i = i + 1;
        }
        assert(items.take(n as int) =~= items);
        result
    }
}

} // verus!
