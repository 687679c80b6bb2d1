//! The error type of the library, its stable machine-readable codes and the
//! exit classes that a front end maps to process exit statuses.

use vstd::prelude::*;
use crate::json::JsonValue;
use crate::text::{cat, cat3, cat4, owned};

verus! {

/// `std::io::Error`, carried opaquely inside [`StaircaseError::Io`].
#[verifier::external_type_specification]
#[verifier::external_body]
pub struct ExIoError(std::io::Error);

/// `serde_json::Error`, carried opaquely inside [`StaircaseError::Serialization`].
#[verifier::external_type_specification]
#[verifier::external_body]
pub struct ExJsonError(serde_json::Error);

/// Classes of failure, each mapped to a distinct process exit status.
#[derive(Debug, Clone, Copy, PartialEq, Eq, Structural)]
pub enum ExitClass {
    Usage,
    Selection,
    ConcurrentState,
    OperationConflict,
    Provider,
    Policy,
    Integrity,
}

impl ExitClass {
    pub open spec fn spec_status(self) -> i32 {
        match self {
            ExitClass::Usage => 1,
            ExitClass::Selection => 2,
            ExitClass::ConcurrentState => 3,
            ExitClass::OperationConflict => 4,
            ExitClass::Provider => 5,
            ExitClass::Policy => 6,
            ExitClass::Integrity => 7,
        }
    }

    /// The exit status of the class: 1 for usage errors up to 7 for integrity errors.
    pub fn status(self) -> (code: i32)
        ensures
            code == self.spec_status(),
    {
        match self {
            ExitClass::Usage => 1,
            ExitClass::Selection => 2,
            ExitClass::ConcurrentState => 3,
            ExitClass::OperationConflict => 4,
            ExitClass::Provider => 5,
            ExitClass::Policy => 6,
            ExitClass::Integrity => 7,
        }
    }
}

/// One of several staircases that an ambiguous selector could denote.
#[derive(Debug, Clone, PartialEq, Eq)]
pub struct AmbiguityCandidate {
    pub kind: String,
    pub selector: String,
    pub name: Option<String>,
    pub lineage_id: Option<String>,
    pub structural_key: Option<String>,
    pub record_oid: Option<String>,
    pub integration_context: Option<String>,
    pub cuts: Vec<String>,
}

/// Every failure that the library reports.
#[derive(Debug)]
pub enum StaircaseError {
    GitCommandFailed { command: String, stdout: String, stderr: String },
    Io(std::io::Error),
    Serialization(serde_json::Error),
    NotFound(String),
    Ambiguous(String),
    SelectorAmbiguous { selector: String, candidates: Vec<AmbiguityCandidate> },
    ConcurrentRecordUpdate { reference: String, expected: String, actual: String },
    OperationInProgress { operation_id: String, kind: String },
    OperationPaused { operation_id: String, kind: String },
    NoActiveOperation,
    RefCollision { reference: String, expected: String, actual: String },
    UnsupportedTopology { operation: String, reason: String },
    ExternalOperation { operation: String, owner: String },
    InvalidStructure(String),
    AdoptionInhibited { operation: String, reason: String },
    Other(String),
}

/// The result type of fallible library operations.
pub type Result<T> = core::result::Result<T, StaircaseError>;

impl StaircaseError {
    /// The stable code reported for the error.
    pub open spec fn spec_code(&self) -> Seq<char> {
        match self {
            StaircaseError::NotFound(_) => "selector-not-found"@,
            StaircaseError::Ambiguous(_) => "selector-ambiguous"@,
            StaircaseError::SelectorAmbiguous { .. } => "selector-ambiguous"@,
            StaircaseError::ConcurrentRecordUpdate { .. } => "concurrent-record-update"@,
            StaircaseError::OperationInProgress { .. } => "operation-in-progress"@,
            StaircaseError::OperationPaused { .. } => "operation-paused"@,
            StaircaseError::NoActiveOperation => "no-active-operation"@,
            StaircaseError::RefCollision { .. } => "ref-collision"@,
            StaircaseError::UnsupportedTopology { .. } => "unsupported-topology"@,
            StaircaseError::ExternalOperation { .. } => "external-operation-in-progress"@,
            StaircaseError::InvalidStructure(_) => "invalid-cut-chain"@,
            StaircaseError::AdoptionInhibited { .. } => "adoption-required"@,
            StaircaseError::GitCommandFailed { .. } => "git-command-failed"@,
            StaircaseError::Io(_) => "io-error"@,
            StaircaseError::Serialization(_) => "serialization-error"@,
            StaircaseError::Other(_) => "validation-failed"@,
        }
    }

    /// The exit class of the error.
    pub open spec fn spec_exit_class(&self) -> ExitClass {
        match self {
            StaircaseError::NotFound(_) => ExitClass::Selection,
            StaircaseError::Ambiguous(_) => ExitClass::Selection,
            StaircaseError::SelectorAmbiguous { .. } => ExitClass::Selection,
            StaircaseError::ConcurrentRecordUpdate { .. } => ExitClass::ConcurrentState,
            StaircaseError::OperationInProgress { .. } => ExitClass::OperationConflict,
            StaircaseError::OperationPaused { .. } => ExitClass::OperationConflict,
            StaircaseError::NoActiveOperation => ExitClass::OperationConflict,
            StaircaseError::ExternalOperation { .. } => ExitClass::OperationConflict,
            StaircaseError::RefCollision { .. } => ExitClass::ConcurrentState,
            StaircaseError::UnsupportedTopology { .. } => ExitClass::Policy,
            StaircaseError::AdoptionInhibited { .. } => ExitClass::Policy,
            StaircaseError::InvalidStructure(_) => ExitClass::Usage,
            StaircaseError::Other(_) => ExitClass::Usage,
            StaircaseError::GitCommandFailed { .. } => ExitClass::Integrity,
            StaircaseError::Io(_) => ExitClass::Integrity,
            StaircaseError::Serialization(_) => ExitClass::Integrity,
        }
    }

    /// The stable, machine-readable code of the error.
    pub fn code(&self) -> (c: &'static str)
        ensures
            c@ == self.spec_code(),
    {
        match self {
            StaircaseError::NotFound(_) => "selector-not-found",
            StaircaseError::Ambiguous(_) => "selector-ambiguous",
            StaircaseError::SelectorAmbiguous { .. } => "selector-ambiguous",
            StaircaseError::ConcurrentRecordUpdate { .. } => "concurrent-record-update",
            StaircaseError::OperationInProgress { .. } => "operation-in-progress",
            StaircaseError::OperationPaused { .. } => "operation-paused",
            StaircaseError::NoActiveOperation => "no-active-operation",
            StaircaseError::RefCollision { .. } => "ref-collision",
            StaircaseError::UnsupportedTopology { .. } => "unsupported-topology",
            StaircaseError::ExternalOperation { .. } => "external-operation-in-progress",
            StaircaseError::InvalidStructure(_) => "invalid-cut-chain",
            StaircaseError::AdoptionInhibited { .. } => "adoption-required",
            StaircaseError::GitCommandFailed { .. } => "git-command-failed",
            StaircaseError::Io(_) => "io-error",
            StaircaseError::Serialization(_) => "serialization-error",
            StaircaseError::Other(_) => "validation-failed",
        }
    }

    /// The exit class of the error.
    pub fn exit_class(&self) -> (c: ExitClass)
        ensures
            c == self.spec_exit_class(),
    {
        match self {
            StaircaseError::NotFound(_) => ExitClass::Selection,
            StaircaseError::Ambiguous(_) => ExitClass::Selection,
            StaircaseError::SelectorAmbiguous { .. } => ExitClass::Selection,
            StaircaseError::ConcurrentRecordUpdate { .. } => ExitClass::ConcurrentState,
            StaircaseError::OperationInProgress { .. } => ExitClass::OperationConflict,
            StaircaseError::OperationPaused { .. } => ExitClass::OperationConflict,
            StaircaseError::NoActiveOperation => ExitClass::OperationConflict,
            StaircaseError::ExternalOperation { .. } => ExitClass::OperationConflict,
            StaircaseError::RefCollision { .. } => ExitClass::ConcurrentState,
            StaircaseError::UnsupportedTopology { .. } => ExitClass::Policy,
            StaircaseError::AdoptionInhibited { .. } => ExitClass::Policy,
            StaircaseError::InvalidStructure(_) => ExitClass::Usage,
            StaircaseError::Other(_) => ExitClass::Usage,
            StaircaseError::GitCommandFailed { .. } => ExitClass::Integrity,
            StaircaseError::Io(_) => ExitClass::Integrity,
            StaircaseError::Serialization(_) => ExitClass::Integrity,
        }
    }
}

/// Calls `ToString::to_string` (the `Display` text) on an I/O error. The text
/// comes from the operating system, so nothing is stated of it.
#[verifier::external_body]
fn io_error_text(e: &std::io::Error) -> String {
    e.to_string()
}

/// Calls `ToString::to_string` (the `Display` text) on a JSON error. Nothing is
/// stated of the text.
#[verifier::external_body]
fn json_error_text(e: &serde_json::Error) -> String {
    e.to_string()
}

impl StaircaseError {
    /// The human-readable message of an error that carries no outside error.
    pub open spec fn spec_message(&self) -> Seq<char> {
        match self {
            StaircaseError::GitCommandFailed { command, stdout, stderr } => "Git command failed: "@
                + command@ + "\nStdout: "@ + stdout@ + "\nStderr: "@ + stderr@,
            StaircaseError::Io(_) => "IO error: "@,
            StaircaseError::Serialization(_) => "Serialization error: "@,
            StaircaseError::NotFound(s) => "Staircase not found: "@ + s@,
            StaircaseError::Ambiguous(s) => "Ambiguous staircase: "@ + s@,
            StaircaseError::SelectorAmbiguous { selector, .. } => "selector '"@ + selector@ + "' is ambiguous"@,
            StaircaseError::ConcurrentRecordUpdate { reference, expected, actual } => "record changed concurrently for "@
                + reference@ + ": expected "@ + expected@ + ", actual "@ + actual@,
            StaircaseError::OperationInProgress { operation_id, kind } => "Staircase operation "@ + operation_id@
                + " ("@ + kind@ + ") is already in progress"@,
            StaircaseError::OperationPaused { operation_id, kind } => "Staircase operation "@ + operation_id@
                + " ("@ + kind@ + ") paused for conflict resolution"@,
            StaircaseError::NoActiveOperation => "No Staircase operation is in progress"@,
            StaircaseError::RefCollision { reference, expected, actual } => "ref collision at "@ + reference@
                + ": expected "@ + expected@ + ", actual "@ + actual@,
            StaircaseError::UnsupportedTopology { operation, reason } => "unsupported topology for "@ + operation@
                + ": "@ + reason@,
            StaircaseError::ExternalOperation { operation, owner } => "external Git operation '"@ + operation@
                + "' is owned by "@ + owner@,
            StaircaseError::InvalidStructure(s) => "Invalid staircase structure: "@ + s@,
            StaircaseError::AdoptionInhibited { operation, reason } => "adoption required for "@ + operation@
                + ", but inhibited by --no-adopt: "@ + reason@,
            StaircaseError::Other(s) => "Other error: "@ + s@,
        }
    }

    /// The human-readable message of the error. For an I/O or JSON error it is
    /// the prefix followed by that error's own text.
    pub fn message(&self) -> (m: String)
        ensures
            !(self is Io) && !(self is Serialization) ==> m@ == self.spec_message(),
            (self is Io || self is Serialization) ==> m@.take(self.spec_message().len() as int) == self.spec_message(),
    {
        match self {
            StaircaseError::GitCommandFailed { command, stdout, stderr } => {
                let mut m = cat("Git command failed: ", command.as_str());
                m.append("\nStdout: ");
                m.append(stdout.as_str());
                m.append("\nStderr: ");
                m.append(stderr.as_str());
                m
            },
            StaircaseError::Io(e) => {
                let r = cat("IO error: ", io_error_text(e).as_str());
                proof { reveal_strlit("IO error: "); assert(r@.take(10) =~= "IO error: "@); }
                r
            },
            StaircaseError::Serialization(e) => {
                let r = cat("Serialization error: ", json_error_text(e).as_str());
                proof { reveal_strlit("Serialization error: "); assert(r@.take(21) =~= "Serialization error: "@); }
                r
            },
            StaircaseError::NotFound(s) => cat("Staircase not found: ", s.as_str()),
            StaircaseError::Ambiguous(s) => cat("Ambiguous staircase: ", s.as_str()),
            StaircaseError::SelectorAmbiguous { selector, .. } => cat3("selector '", selector.as_str(), "' is ambiguous"),
            StaircaseError::ConcurrentRecordUpdate { reference, expected, actual } => {
                let mut m = cat("record changed concurrently for ", reference.as_str());
                m.append(": expected ");
                m.append(expected.as_str());
                m.append(", actual ");
                m.append(actual.as_str());
                m
            },
            StaircaseError::OperationInProgress { operation_id, kind } => {
                let mut m = cat("Staircase operation ", operation_id.as_str());
                m.append(" (");
                m.append(kind.as_str());
                m.append(") is already in progress");
                m
            },
            StaircaseError::OperationPaused { operation_id, kind } => {
                let mut m = cat("Staircase operation ", operation_id.as_str());
                m.append(" (");
                m.append(kind.as_str());
                m.append(") paused for conflict resolution");
                m
            },
            StaircaseError::NoActiveOperation => owned("No Staircase operation is in progress"),
            StaircaseError::RefCollision { reference, expected, actual } => {
                let mut m = cat("ref collision at ", reference.as_str());
                m.append(": expected ");
                m.append(expected.as_str());
                m.append(", actual ");
                m.append(actual.as_str());
                m
            },
            StaircaseError::UnsupportedTopology { operation, reason } => cat4("unsupported topology for ", operation.as_str(), ": ", reason.as_str()),
            StaircaseError::ExternalOperation { operation, owner } => cat4("external Git operation '", operation.as_str(), "' is owned by ", owner.as_str()),
            StaircaseError::InvalidStructure(s) => cat("Invalid staircase structure: ", s.as_str()),
            StaircaseError::AdoptionInhibited { operation, reason } => cat4("adoption required for ", operation.as_str(), ", but inhibited by --no-adopt: ", reason.as_str()),
            StaircaseError::Other(s) => cat("Other error: ", s.as_str()),
        }
    }
}

/// Errors of one exit class share the class's exit status, and the status of
/// every error lies between 1 and 7.
pub proof fn law_exit_status_range(e: StaircaseError)
    ensures
        1 <= e.spec_exit_class().spec_status() <= 7,
{
}


/// A JSON string.
fn json_text(s: &String) -> (r: JsonValue)
    ensures
        r matches JsonValue::String(t) && t@ == s@,
{
    JsonValue::String(s.clone())
}

/// The JSON array of the words of a command.
fn json_words(words: &[&str]) -> (r: JsonValue)
    ensures
        r matches JsonValue::Array(items) && items@.len() == words@.len(),
{
    let mut items: Vec<JsonValue> = Vec::new();
    let mut i: usize = 0;
    while i < words.len()
        invariant
            i <= words@.len(),
            items@.len() == i,
        decreases words@.len() - i,
    {
        items.push(JsonValue::String(owned(words[i])));
        i += 1;
    }
    JsonValue::Array(items)
}

/// Whether member `i` of `m` is named `key` and holds the string `value`.
pub open spec fn string_member_at(m: Seq<(String, JsonValue)>, i: int, key: Seq<char>, value: Seq<char>) -> bool {
    &&& 0 <= i < m.len()
    &&& m[i].0@ == key
    &&& m[i].1 matches JsonValue::String(t) && t@ == value
}

/// A member by its name and, when it holds a string, that string.
pub open spec fn member_view(m: (String, JsonValue)) -> (Seq<char>, Option<Seq<char>>) {
    (m.0@, match m.1 {
        JsonValue::String(t) => Some(t@),
        _ => None,
    })
}

/// Members by their views (see [`member_view`]).
pub open spec fn member_views(ms: Seq<(String, JsonValue)>) -> Seq<(Seq<char>, Option<Seq<char>>)> {
    ms.map_values(|m: (String, JsonValue)| member_view(m))
}

/// The string member `key` when the optional value is present; nothing otherwise.
pub open spec fn optional_member(key: Seq<char>, v: Option<String>) -> Seq<(Seq<char>, Option<Seq<char>>)> {
    match v {
        Some(t) => seq![(key, Some(t@))],
        None => seq![],
    }
}

/// The string members of a candidate, in name order, without the absent
/// optional ones.
pub open spec fn candidate_string_members(c: AmbiguityCandidate) -> Seq<(Seq<char>, Option<Seq<char>>)> {
    optional_member("integration_context"@, c.integration_context) + seq![("kind"@, Some(c.kind@))]
        + optional_member("lineage_id"@, c.lineage_id) + optional_member("name"@, c.name)
        + optional_member("record_oid"@, c.record_oid) + seq![("selector"@, Some(c.selector@))]
        + optional_member("structural_key"@, c.structural_key)
}

/// Appends the string member `key`.
fn push_text_member(members: &mut Vec<(String, JsonValue)>, key: &str, value: &String)
    ensures
        member_views(final(members)@) == member_views(old(members)@).push((key@, Some(value@))),
        final(members)@.len() == old(members)@.len() + 1,
        final(members)@.take(old(members)@.len() as int) == old(members)@,
{
    let ghost before = members@;
    members.push((owned(key), json_text(value)));
    proof {
        assert(member_views(members@) =~= member_views(before).push((key@, Some(value@))));
        assert(members@.take(before.len() as int) =~= before);
    }
}

/// Appends the string member `key` when `value` is present.
fn push_optional_member(members: &mut Vec<(String, JsonValue)>, key: &str, value: &Option<String>)
    ensures
        member_views(final(members)@) == member_views(old(members)@) + optional_member(key@, *value),
        final(members)@.len() >= old(members)@.len(),
        final(members)@.take(old(members)@.len() as int) == old(members)@,
{
    match value {
        Some(v) => push_text_member(members, key, v),
        None => {
            proof {
                assert(member_views(members@) =~= member_views(members@) + optional_member(key@, *value));
                assert(members@.take(members@.len() as int) =~= members@);
            }
        },
    }
}

impl AmbiguityCandidate {
    /// The candidate as JSON: its members in name order, without the
    /// absent optional ones or an empty list of cuts.
    pub fn to_json(&self) -> (r: JsonValue)
        ensures
            r matches JsonValue::Object(m) && ({
                let first = if self.cuts@.len() > 0 { 1int } else { 0int };
                &&& self.cuts@.len() > 0 ==> (m@[0].0@ == "cuts"@ && (m@[0].1 matches JsonValue::Array(items)
                    && items@.len() == self.cuts@.len()
                    && forall|i: int| 0 <= i < items@.len() ==> (#[trigger] items@[i] matches JsonValue::String(t)
                        && t@ == self.cuts@[i]@)))
                &&& m@.len() >= first
                &&& member_views(m@.skip(first)) == candidate_string_members(*self)
            }),
    {
        let mut members: Vec<(String, JsonValue)> = Vec::new();
        if self.cuts.len() > 0 {
            let mut cuts: Vec<JsonValue> = Vec::new();
            let mut i: usize = 0;
            while i < self.cuts.len()
                invariant
                    i <= self.cuts@.len(),
                    cuts@.len() == i,
                    forall|k: int| 0 <= k < i ==> (#[trigger] cuts@[k] matches JsonValue::String(t) && t@ == self.cuts@[k]@),
                decreases self.cuts@.len() - i,
            {
                cuts.push(json_text(&self.cuts[i]));
                i += 1;
            }
            members.push((owned("cuts"), JsonValue::Array(cuts)));
        }
        let ghost first: int = if self.cuts@.len() > 0 { 1int } else { 0int };
        let ghost head = members@;
        proof {
            assert(member_views(members@.skip(first)) =~= seq![]);
        }
        push_optional_member(&mut members, "integration_context", &self.integration_context);
        push_text_member(&mut members, "kind", &self.kind);
        push_optional_member(&mut members, "lineage_id", &self.lineage_id);
        push_optional_member(&mut members, "name", &self.name);
        push_optional_member(&mut members, "record_oid", &self.record_oid);
        push_text_member(&mut members, "selector", &self.selector);
        push_optional_member(&mut members, "structural_key", &self.structural_key);
        proof {
            assert(head.len() == first);
            assert(members@.len() >= first);
            assert(member_views(members@) =~= member_views(head) + candidate_string_members(*self));
            assert(members@.take(first) =~= head);
            assert(member_views(members@.skip(first)) =~= candidate_string_members(*self)) by {
                assert forall|i: int| 0 <= i < members@.len() - first implies member_views(members@.skip(first))[i]
                    == candidate_string_members(*self)[i] by {
                    assert(members@.skip(first)[i] == members@[i + first]);
                    assert(member_views(members@)[i + first] == member_view(members@[i + first]));
                }
            }
            if self.cuts@.len() > 0 {
                assert(members@[0] == head[0]);
            }
        }
        JsonValue::Object(members)
    }
}

impl StaircaseError {
    /// The machine-readable details of the error, as a JSON object with its
    /// members in name order; `null` for errors without details.
    pub fn details(&self) -> (r: JsonValue)
        ensures
            match self {
                StaircaseError::RefCollision { reference, expected, actual } => r matches JsonValue::Object(m)
                    && m@.len() == 3 && string_member_at(m@, 0, "actual_oid"@, actual@)
                    && string_member_at(m@, 1, "expected_oid"@, expected@) && string_member_at(m@, 2, "ref"@, reference@),
                StaircaseError::ConcurrentRecordUpdate { reference, expected, actual } => r matches JsonValue::Object(m)
                    && m@.len() == 3 && string_member_at(m@, 0, "actual_record_oid"@, actual@)
                    && string_member_at(m@, 1, "expected_record_oid"@, expected@) && string_member_at(m@, 2, "ref"@, reference@),
                StaircaseError::UnsupportedTopology { operation, reason } => r matches JsonValue::Object(m)
                    && m@.len() == 2 && string_member_at(m@, 0, "operation"@, operation@)
                    && string_member_at(m@, 1, "reason"@, reason@),
                StaircaseError::ExternalOperation { operation, owner } => r matches JsonValue::Object(m)
                    && m@.len() == 2 && string_member_at(m@, 0, "operation"@, operation@)
                    && string_member_at(m@, 1, "owner"@, owner@),
                StaircaseError::GitCommandFailed { command, stdout, stderr } => r matches JsonValue::Object(m)
                    && m@.len() == 3 && string_member_at(m@, 0, "command"@, command@)
                    && string_member_at(m@, 1, "stderr"@, stderr@) && string_member_at(m@, 2, "stdout"@, stdout@),
                StaircaseError::OperationInProgress { operation_id, kind } => r matches JsonValue::Object(m)
                    && m@.len() == 4 && string_member_at(m@, 2, "operation_id"@, operation_id@)
                    && string_member_at(m@, 3, "operation_kind"@, kind@),
                StaircaseError::OperationPaused { operation_id, kind } => r matches JsonValue::Object(m)
                    && m@.len() == 4 && string_member_at(m@, 2, "operation_id"@, operation_id@)
                    && string_member_at(m@, 3, "operation_kind"@, kind@),
                StaircaseError::AdoptionInhibited { operation, reason } => r matches JsonValue::Object(m)
                    && m@.len() == 4 && string_member_at(m@, 1, "adoption_reason"@, reason@)
                    && string_member_at(m@, 3, "operation"@, operation@),
                StaircaseError::SelectorAmbiguous { selector, candidates } => r matches JsonValue::Object(m)
                    && m@.len() == 2 && (m@[0].1 matches JsonValue::Array(items) && items@.len() == candidates@.len())
                    && string_member_at(m@, 1, "selector"@, selector@),
                _ => r is Null,
            },
    {
        match self {
            StaircaseError::SelectorAmbiguous { selector, candidates } => {
                let mut items: Vec<JsonValue> = Vec::new();
                let mut i: usize = 0;
                while i < candidates.len()
                    invariant
                        i <= candidates@.len(),
                        items@.len() == i,
                    decreases candidates@.len() - i,
                {
                    items.push(candidates[i].to_json());
                    i += 1;
                }
                JsonValue::Object(vec![(owned("candidates"), JsonValue::Array(items)), (owned("selector"), json_text(selector))])
            },
            StaircaseError::ConcurrentRecordUpdate { reference, expected, actual } => JsonValue::Object(vec![
                (owned("actual_record_oid"), json_text(actual)),
                (owned("expected_record_oid"), json_text(expected)),
                (owned("ref"), json_text(reference)),
            ]),
            StaircaseError::OperationInProgress { operation_id, kind } => JsonValue::Object(vec![
                (owned("abort"), json_words(&["git", "staircase", "abort"])),
                (owned("continue"), json_words(&["git", "staircase", "continue"])),
                (owned("operation_id"), json_text(operation_id)),
                (owned("operation_kind"), json_text(kind)),
            ]),
            StaircaseError::OperationPaused { operation_id, kind } => JsonValue::Object(vec![
                (owned("abort"), json_words(&["git", "staircase", "abort"])),
                (owned("continue"), json_words(&["git", "staircase", "continue"])),
                (owned("operation_id"), json_text(operation_id)),
                (owned("operation_kind"), json_text(kind)),
            ]),
            StaircaseError::RefCollision { reference, expected, actual } => JsonValue::Object(vec![
                (owned("actual_oid"), json_text(actual)),
                (owned("expected_oid"), json_text(expected)),
                (owned("ref"), json_text(reference)),
            ]),
            StaircaseError::UnsupportedTopology { operation, reason } => JsonValue::Object(vec![
                (owned("operation"), json_text(operation)),
                (owned("reason"), json_text(reason)),
            ]),
            StaircaseError::ExternalOperation { operation, owner } => JsonValue::Object(vec![
                (owned("operation"), json_text(operation)),
                (owned("owner"), json_text(owner)),
            ]),
            StaircaseError::AdoptionInhibited { operation, reason } => JsonValue::Object(vec![
                (owned("adopted"), JsonValue::Bool(false)),
                (owned("adoption_reason"), json_text(reason)),
                (owned("adoption_required"), JsonValue::Bool(true)),
                (owned("operation"), json_text(operation)),
            ]),
            StaircaseError::GitCommandFailed { command, stdout, stderr } => JsonValue::Object(vec![
                (owned("command"), json_text(command)),
                (owned("stderr"), json_text(stderr)),
                (owned("stdout"), json_text(stdout)),
            ]),
            _ => JsonValue::Null,
        }
    }
}

} // verus!
