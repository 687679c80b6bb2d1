//! What the library asks of its front end: running `git`, and keeping the
//! small local state files of the tool (the draft attachment, snapshots,
//! operation journals and locks), each read and written as a whole value.

use vstd::prelude::*;
use std::path::PathBuf;
use super::types::{CommandOutput, GitRequest};
use crate::error::StaircaseError;
use crate::json::JsonValue;
use crate::model::{
    ArchiveManifest, DraftAttachment, DraftFileSnapshot, DraftSnapshot, ImplicitArchiveLifecycle,
    ImplicitSnapshotDescriptor, StaircaseLifecycle, StaircaseUserMetadata, VerificationResult,
};
use crate::staircase::operation::journal::OperationJournal;
use crate::staircase::rewrite::RewriteContinuation;

verus! {

/// The kinds of JSON documents that records and verification results store.
#[derive(Debug, Clone, Copy, PartialEq, Eq, Structural)]
pub enum PartKind {
    UserMetadata,
    Lifecycle,
    Manifest,
    Verification,
    SnapshotDescriptor,
    SnapshotLifecycle,
    RewriteState,
}

/// A JSON document that a record or a verification result stores.
#[derive(Debug)]
pub enum RecordPart {
    UserMetadata(StaircaseUserMetadata),
    Lifecycle(StaircaseLifecycle),
    Manifest(ArchiveManifest),
    Verification(Vec<VerificationResult>),
    SnapshotDescriptor(ImplicitSnapshotDescriptor),
    SnapshotLifecycle(ImplicitArchiveLifecycle),
    RewriteState(RewriteContinuation),
}

/// The outcome of trying to create a lock file.
#[derive(Debug, PartialEq, Eq)]
pub enum LockAttempt {
    /// The lock file was created and now names the caller's operation.
    Acquired,
    /// A lock file already exists; what it records, when it could be read.
    Held { pid: Option<u64>, operation_id: Option<String> },
}

/// What a shell command run in the worktree reported.
#[derive(Debug)]
pub struct ShellOutcome {
    /// Whether it exited successfully.
    pub success: bool,
    pub stdout: String,
    pub stderr: String,
}

/// The front end's side of a repository. The library runs no process and
/// touches no file itself: it hands each request to the host and states
/// what holds whatever the host answers. No method carries a contract.
pub trait RepoHost: Send + Sync {
    /// Runs `git` in the repository's worktree with the request's arguments,
    /// standard input and environment, and reports what it produced.
    fn execute(&self, request: &GitRequest) -> std::io::Result<CommandOutput>;

    /// Runs `command` with `sh -c` in the repository's worktree.
    fn run_shell(&self, command: &str) -> std::io::Result<ShellOutcome>;

    /// Whether a file or directory exists at `path`.
    fn path_exists(&self, path: &PathBuf) -> bool;

    /// Whether a directory exists at `path`.
    fn is_dir(&self, path: &PathBuf) -> bool;

    /// Removes the file at `path`.
    fn remove_file(&self, path: &PathBuf) -> std::io::Result<()>;

    /// The text of the file at `path`.
    fn read_text(&self, path: &PathBuf) -> std::io::Result<String>;

    /// Writes `content` to the file at `path`, creating its directory.
    fn write_text(&self, path: &PathBuf, content: &str) -> std::io::Result<()>;

    /// The draft attachment stored at `path`; none when the file does not
    /// exist or does not hold an attachment.
    fn load_attachment(&self, path: &PathBuf) -> std::io::Result<Option<DraftAttachment>>;

    /// Stores `attachment` at `path`, creating its directory.
    fn save_attachment(&self, path: &PathBuf, attachment: &DraftAttachment) -> std::io::Result<()>;

    /// Stores `snapshot` at `path`, creating its directory.
    fn save_snapshot(&self, path: &PathBuf, snapshot: &DraftSnapshot) -> std::io::Result<()>;

    /// The snapshot stored at `path`.
    fn load_snapshot(&self, path: &PathBuf) -> core::result::Result<DraftSnapshot, StaircaseError>;

    /// The journals stored as `*.json` files in `dir` (created if missing),
    /// in the order of their paths, skipping files that do not hold one.
    fn load_journals(&self, dir: &PathBuf) -> std::io::Result<Vec<OperationJournal>>;

    /// Stores `journal` at `path` atomically: a temporary file, synced, then renamed.
    fn save_journal(&self, path: &PathBuf, journal: &OperationJournal) -> std::io::Result<()>;

    /// Removes every `*.json` file in `dir`; whether there was one.
    fn remove_json_files(&self, dir: &PathBuf) -> std::io::Result<bool>;

    /// Creates the lock file `path` (and its directory) for `operation_id`,
    /// unless it already exists.
    fn try_lock(&self, path: &PathBuf, operation_id: &str) -> std::io::Result<LockAttempt>;

    /// Whether process `pid` is alive.
    fn process_alive(&self, pid: u64) -> bool;

    /// Snapshots of the files at `paths` under the worktree (regular files
    /// and symbolic links; other paths are skipped).
    fn capture_files(&self, paths: &Vec<String>) -> std::io::Result<Vec<DraftFileSnapshot>>;

    /// Writes the captured `files` back under the worktree.
    fn restore_files(&self, files: &Vec<DraftFileSnapshot>) -> core::result::Result<(), StaircaseError>;

    /// Parses JSON text.
    fn parse_json(&self, text: &str) -> core::result::Result<JsonValue, StaircaseError>;

    /// The canonical JSON text of a stored document: its members sorted by
    /// name at every depth, compact.
    fn encode_part(&self, part: &RecordPart) -> core::result::Result<String, StaircaseError>;

    /// Reads JSON text as a stored document of the given kind.
    fn decode_part(&self, kind: PartKind, text: &str) -> core::result::Result<RecordPart, StaircaseError>;
}

} // verus!
