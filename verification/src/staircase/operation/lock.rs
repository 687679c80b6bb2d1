//! Operation locks: a lock for the repository and one for the lineage that
//! an operation rewrites, each a file held until the operation ends.

use vstd::prelude::*;
use std::path::PathBuf;
use crate::error::{Result, StaircaseError};
use crate::git::host::LockAttempt;
use crate::git::repo::{path_join, GitRepo};
use crate::text::{cat3, owned};

verus! {

/// `std::io::Error::from(ErrorKind::AlreadyExists)`: the error of creating a
/// file that exists.
#[verifier::external_body]
fn already_exists_error() -> std::io::Error {
    std::io::Error::from(std::io::ErrorKind::AlreadyExists)
}

/// The directory of the lock files.
fn locks_dir(repo: &GitRepo) -> (r: Result<PathBuf>)
    ensures
        r matches Err(e) ==> (e is Io || e is GitCommandFailed),
{
    let common = repo.common_dir()?;
    let dir = path_join(&common, "staircase");
    Ok(path_join(&dir, "locks"))
}

/// The decision on a lock file held by someone else: whether its holder
/// counts as alive (a holder of unknown process is assumed alive).
pub fn holder_alive(repo: &GitRepo, pid: Option<u64>) -> (b: bool)
    ensures
        pid is None ==> b,
{
    match pid {
        Some(p) => repo.host.process_alive(p),
        None => true,
    }
}

/// A held lock file.
pub struct RepositoryLock {
    pub(crate) path: PathBuf,
}

impl RepositoryLock {
    /// Takes lock `name` for `operation_id`. A lock held by a live process is
    /// an `OperationInProgress` error naming the holder's operation (or ours
    /// when the file does not say); a stale lock is removed and taken.
    pub fn acquire(repo: &GitRepo, operation_id: &str, name: &str) -> (r: Result<Self>)
        ensures
            r matches Err(StaircaseError::OperationInProgress { kind, .. }) ==> kind@ == "repository-lock"@,
            r matches Err(e) ==> (e is Io || e is GitCommandFailed || e is OperationInProgress),
    {
        let dir = locks_dir(repo)?;
        let path = path_join(&dir, name);
        let attempt = match repo.host.try_lock(&path, operation_id) {
            Ok(a) => a,
            Err(e) => return Err(StaircaseError::Io(e)),
        };
        match attempt {
            LockAttempt::Acquired => Ok(RepositoryLock { path }),
            LockAttempt::Held { pid, operation_id: holder } => {
                if holder_alive(repo, pid) {
                    let id = match holder {
                        Some(h) => h,
                        None => owned(operation_id),
                    };
                    return Err(StaircaseError::OperationInProgress { operation_id: id, kind: owned("repository-lock") });
                }
                match repo.host.remove_file(&path) {
                    Ok(()) => {},
                    Err(e) => return Err(StaircaseError::Io(e)),
                }
                match repo.host.try_lock(&path, operation_id) {
                    Ok(LockAttempt::Acquired) => Ok(RepositoryLock { path }),
                    Ok(LockAttempt::Held { .. }) => Err(StaircaseError::Io(already_exists_error())),
                    Err(e) => Err(StaircaseError::Io(e)),
                }
            },
        }
    }

    /// Releases the lock, removing its file (a failure to remove is ignored).
    pub fn release(self, repo: &GitRepo) {
        let _ = repo.host.remove_file(&self.path);
    }
}

/// The locks of one operation: the repository lock, and the lock of its
/// lineage when it has one.
pub struct OperationLocks {
    pub(crate) repository: RepositoryLock,
    pub(crate) lineage: Option<RepositoryLock>,
}

impl OperationLocks {
    /// Whether the locks include a lineage lock.
    pub closed spec fn holds_lineage(&self) -> bool {
        self.lineage is Some
    }

    /// Takes the repository lock and then, if `lineage_id` is given, the lock
    /// `lineage-<id>.lock`; when the second fails, the first is released.
    pub fn acquire(repo: &GitRepo, operation_id: &str, lineage_id: Option<&str>) -> (r: Result<Self>)
        ensures
            r matches Ok(l) ==> (l.holds_lineage() <==> lineage_id is Some),
            r matches Err(e) ==> (e is Io || e is GitCommandFailed || e is OperationInProgress),
    {
        let repository = RepositoryLock::acquire(repo, operation_id, "repository.lock")?;
        let lineage = match lineage_id {
            Some(id) => {
                let name = cat3("lineage-", id, ".lock");
                match RepositoryLock::acquire(repo, operation_id, name.as_str()) {
                    Ok(l) => Some(l),
                    Err(e) => {
                        repository.release(repo);
                        return Err(e);
                    },
                }
            },
            None => None,
        };
        Ok(OperationLocks { repository, lineage })
    }

    /// Releases the lineage lock, if any, and the repository lock.
    pub fn release(self, repo: &GitRepo) {
        match self.lineage {
            Some(l) => l.release(repo),
            None => {},
        }
        self.repository.release(repo);
    }
}

} // verus!
