//! Records: a tree of `structure`, `metadata`, `lifecycle` and (for an
//! archived staircase) `archive-manifest` blobs, published under the
//! staircase's record ref, its public ref and its step refs.

use vstd::prelude::*;
use super::structure::{
    parse_structure, serialize_structure, ANCHOR_EXTENSION, DISCOVERY_EXTENSION, GERRIT_EXTENSION,
    GITHUB_EXTENSION, POLICY_EXTENSION, STRUCTURAL_STATE_EXTENSION,
};
use super::{read_versioned, write_versioned};
use crate::collections::{SortedMap, StringMap};
use crate::error::{Result, StaircaseError};
use crate::git::host::{PartKind, RecordPart};
use crate::git::repo::GitRepo;
use crate::git::types::TreeEntry;
use crate::model::{
    ArchiveManifest, LifecycleState, StaircaseLifecycle, StaircaseMetadata, StaircaseRecord,
    StaircaseLink, StaircaseUserMetadata, Step,
};
use crate::staircase::operation::mutation::{push_ref_command, ref_command, MutationPlan};
use crate::staircase::refs::{spec_record, StaircaseRefs, PUBLIC_PREFIX};
use crate::text::{cat, cat3, cat4, opt_view, owned, str_eq, strip_prefix, views, words, words_of};

verus! {

/// The names a record tree may hold.
pub open spec fn known_entry(name: Seq<char>) -> bool {
    name == "structure"@ || name == "metadata"@ || name == "lifecycle"@ || name == "archive-manifest"@
}

/// The first entry of a record tree that is not a regular blob with a known
/// name, and what is wrong with it.
pub open spec fn bad_entry(target: Seq<char>, es: Seq<TreeEntry>) -> Option<Seq<char>>
    decreases es.len(),
{
    if es.len() == 0 {
        None
    } else {
        match bad_entry(target, es.drop_last()) {
            Some(m) => Some(m),
            None => {
                let e = es.last();
                if e.mode@ != "100644"@ || e.kind@ != "blob"@ {
                    Some("record entry "@ + e.name@ + " must be a regular blob"@)
                } else if !known_entry(e.name@) {
                    Some("record tree "@ + target + " contains unknown entry "@ + e.name@)
                } else {
                    None
                }
            },
        }
    }
}

/// The blobs of a record tree by name (a later entry of a name wins), or the
/// error for its first bad entry (see [`bad_entry`]).
pub fn record_entries(target_oid: &str, entries: &Vec<TreeEntry>) -> (r: Result<SortedMap<String>>)
    ensures
        match bad_entry(target_oid@, entries@) {
            Some(m) => r matches Err(StaircaseError::Other(e)) && e@ == m,
            None => r matches Ok(map) && forall|i: int| 0 <= i < entries@.len()
                ==> #[trigger] map.view().contains_key(entries@[i].name@),
        },
{
    let mut map: SortedMap<String> = SortedMap::new();
    let mut i: usize = 0;
    proof {
        assert(entries@.take(0) =~= Seq::<TreeEntry>::empty());
    }
    while i < entries.len()
        invariant
            i <= entries@.len(),
            bad_entry(target_oid@, entries@.take(i as int)) is None,
            forall|k: int| 0 <= k < i ==> #[trigger] map.view().contains_key(entries@[k].name@),
        decreases entries@.len() - i,
    {
        let e = &entries[i];
        proof {
            assert(entries@.take(i + 1).drop_last() =~= entries@.take(i as int));
            assert(entries@.take(i + 1).last() == *e);
        }
        if !str_eq(e.mode.as_str(), "100644") || !str_eq(e.kind.as_str(), "blob") {
            proof {
                lemma_bad_entry_persists(target_oid@, entries@, i + 1);
            }
            return Err(StaircaseError::Other(cat3("record entry ", e.name.as_str(), " must be a regular blob")));
        }
        let n = e.name.as_str();
        if !(str_eq(n, "structure") || str_eq(n, "metadata") || str_eq(n, "lifecycle") || str_eq(n, "archive-manifest")) {
            proof {
                lemma_bad_entry_persists(target_oid@, entries@, i + 1);
            }
            let mut m = cat3("record tree ", target_oid, " contains unknown entry ");
            m.append(n);
            return Err(StaircaseError::Other(m));
        }
        map.insert(e.name.clone(), e.oid.clone());
        i += 1;
    }
    proof {
        assert(entries@.take(i as int) =~= entries@);
    }
    Ok(map)
}

proof fn lemma_bad_entry_persists(target: Seq<char>, es: Seq<TreeEntry>, k: int)
    requires
        0 <= k <= es.len(),
        bad_entry(target, es.take(k)) is Some,
    ensures
        bad_entry(target, es) == bad_entry(target, es.take(k)),
    decreases es.len() - k,
{
    if k < es.len() {
        assert(es.drop_last().take(k) =~= es.take(k));
        lemma_bad_entry_persists(target, es.drop_last(), k);
    } else {
        assert(es.take(k) =~= es);
    }
}

/// The blob named `name` in a record tree, or the error that it is missing.
pub fn required_entry(entries: &SortedMap<String>, name: &str, record_oid: &str) -> (r: Result<String>)
    ensures
        entries.view().contains_key(name@) ==> (r matches Ok(s) && s@ == entries.view()[name@]@),
        !entries.view().contains_key(name@) ==> (r matches Err(StaircaseError::Other(m))
            && m@ == "record tree "@ + record_oid@ + " missing '"@ + name@ + "'"@),
{
    match entries.get(name) {
        Some(v) => Ok(v.clone()),
        None => {
            let mut m = cat3("record tree ", record_oid, " missing '");
            m.append(name);
            m.append("'");
            Err(StaircaseError::Other(m))
        },
    }
}

/// An archived record must have an archive manifest and an active one must not.
pub fn check_record_lifecycle(target_oid: &str, state: LifecycleState, has_manifest: bool) -> (r: Result<()>)
    ensures
        state == LifecycleState::Archived && !has_manifest ==> (r matches Err(StaircaseError::Other(m))
            && m@ == "archived record "@ + target_oid@ + " is missing archive-manifest"@),
        state == LifecycleState::Active && has_manifest ==> (r matches Err(StaircaseError::Other(m))
            && m@ == "active record "@ + target_oid@ + " must not contain archive-manifest"@),
        (state == LifecycleState::Archived) == has_manifest ==> r is Ok,
{
    match state {
        LifecycleState::Archived => {
            if !has_manifest {
                return Err(StaircaseError::Other(cat3("archived record ", target_oid, " is missing archive-manifest")));
            }
        },
        LifecycleState::Active => {
            if has_manifest {
                return Err(StaircaseError::Other(cat3("active record ", target_oid, " must not contain archive-manifest")));
            }
        },
    }
    Ok(())
}

/// The key of a step in refs: its id, or its name when it has no id.
pub open spec fn spec_step_key(step: Step) -> Seq<char> {
    if step.id@.len() == 0 { step.name@ } else { step.id@ }
}

/// The key of a step in refs (see [`spec_step_key`]).
pub fn step_key(step: &Step) -> (r: &str)
    ensures
        r@ == spec_step_key(*step),
{
    if step.id.unicode_len() == 0 {
        step.name.as_str()
    } else {
        step.id.as_str()
    }
}

/// The mutation a publication command asks for: `create <ref> <new>`,
/// `update <ref> <new> <old>` or `delete <ref> <old>`.
pub open spec fn command_mutation(fields: Seq<Seq<char>>) -> Option<(Seq<char>, Option<Seq<char>>, Option<Seq<char>>)> {
    if fields.len() == 3 && fields[0] == "create"@ {
        Some((fields[1], None, Some(fields[2])))
    } else if fields.len() == 4 && fields[0] == "update"@ {
        Some((fields[1], Some(fields[3]), Some(fields[2])))
    } else if fields.len() == 3 && fields[0] == "delete"@ {
        Some((fields[1], Some(fields[2]), None))
    } else {
        None
    }
}

/// A mutation by its reference, expected value and planned value.
pub open spec fn mutation_view(m: crate::staircase::operation::mutation::RefMutation) -> (Seq<char>, Option<Seq<char>>, Option<Seq<char>>) {
    (m.reference@, crate::text::opt_view(m.expected), crate::text::opt_view(m.planned))
}

/// Adds to `plan` the mutation that publication command `command` asks for
/// (see [`command_mutation`]); any other command is an error.
pub fn add_command_to_plan(plan: &mut MutationPlan, command: &str) -> (r: Result<()>)
    ensures
        match command_mutation(words(command@)) {
            Some(m) => r is Ok && final(plan).refs@.len() == old(plan).refs@.len() + 1
                && final(plan).refs@.take(old(plan).refs@.len() as int) == old(plan).refs@
                && mutation_view(final(plan).refs@.last()) == m,
            None => r matches Err(StaircaseError::Other(e)) && e@ == "invalid record publication command '"@ + command@ + "'"@
                && final(plan).refs@ == old(plan).refs@,
        },
        final(plan).kind == old(plan).kind,
        final(plan).lineage_id == old(plan).lineage_id,
        final(plan).expected_record_revision == old(plan).expected_record_revision,
{
    let fields = words_of(command);
    proof {
        assert(views(fields@).len() == fields@.len());
    }
    let n = fields.len();
    if n == 3 && str_eq(fields[0].as_str(), "create") {
        plan.update(fields[1].clone(), None, Some(fields[2].clone()));
        proof { assert(plan.refs@.take(old(plan).refs@.len() as int) =~= old(plan).refs@); }
        return Ok(());
    }
    if n == 4 && str_eq(fields[0].as_str(), "update") {
        plan.update(fields[1].clone(), Some(fields[3].clone()), Some(fields[2].clone()));
        proof { assert(plan.refs@.take(old(plan).refs@.len() as int) =~= old(plan).refs@); }
        return Ok(());
    }
    if n == 3 && str_eq(fields[0].as_str(), "delete") {
        plan.update(fields[1].clone(), Some(fields[2].clone()), None);
        proof { assert(plan.refs@.take(old(plan).refs@.len() as int) =~= old(plan).refs@); }
        return Ok(());
    }
    let mut m = cat("invalid record publication command '", command);
    m.append("'");
    Err(StaircaseError::Other(m))
}

/// What a publication needs to know of the record it replaces.
pub struct OldRecord {
    pub id: String,
    pub name: String,
    pub state: LifecycleState,
    pub record_oid: String,
    pub steps: Vec<Step>,
}

/// The public ref of a staircase named `name` in lifecycle state `state`:
/// only a named active staircase has one.
pub open spec fn public_ref_of(name: Seq<char>, state: LifecycleState) -> Option<Seq<char>> {
    if state == LifecycleState::Active && name.len() > 0 {
        Some("refs/staircases/"@ + name)
    } else {
        None
    }
}

/// The old record by its id, name, lifecycle state and record object.
pub open spec fn old_record_view(o: OldRecord) -> (Seq<char>, Seq<char>, LifecycleState, Seq<char>) {
    (o.id@, o.name@, o.state, o.record_oid@)
}

/// The record-ref commands of a publication: create the record ref of a
/// new staircase; update it in place when the lifecycle state is unchanged;
/// else delete the old state's record ref and create the new one.
pub open spec fn spec_record_moves(
    old: Option<(Seq<char>, Seq<char>, LifecycleState, Seq<char>)>,
    id: Seq<char>,
    state: LifecycleState,
    new_oid: Seq<char>,
) -> Seq<Seq<char>> {
    match old {
        None => ref_command(spec_record(id, state), None, Some(new_oid)),
        Some((oid_id, _, old_state, old_oid)) => if old_state == state {
            ref_command(spec_record(id, state), Some(old_oid), Some(new_oid))
        } else {
            ref_command(spec_record(oid_id, old_state), Some(old_oid), None) + ref_command(
                spec_record(id, state),
                None,
                Some(new_oid),
            )
        },
    }
}

/// The public-ref commands of a publication: create, delete, update in
/// place, or move (delete and create) the public ref, from the old record's
/// (expected at `expected`) to the new one's.
pub open spec fn spec_public_moves(
    old_public: Option<Seq<char>>,
    new_public: Option<Seq<char>>,
    expected: Seq<char>,
    new_oid: Seq<char>,
) -> Seq<Seq<char>> {
    match (old_public, new_public) {
        (None, Some(n)) => ref_command(n, None, Some(new_oid)),
        (Some(o), None) => ref_command(o, Some(expected), None),
        (Some(o), Some(n)) => if o == n {
            ref_command(n, Some(expected), Some(new_oid))
        } else {
            ref_command(o, Some(expected), None) + ref_command(n, None, Some(new_oid))
        },
        (None, None) => seq![],
    }
}

/// The commands that move the record ref and the public ref from the old
/// record (if any) to the new one: the record ref is created, updated in
/// place, or moved when the lifecycle state changes; the public ref (which
/// only a named active staircase has) is created, updated, moved or deleted.
pub fn record_ref_commands(
    old: &Option<OldRecord>,
    id: &str,
    name: &str,
    state: LifecycleState,
    expected_record_oid: Option<&str>,
    new_record_oid: &str,
) -> (commands: Vec<String>)
    requires
        old is Some ==> expected_record_oid is Some,
    ensures
        views(commands@) == spec_record_moves(
            match *old { Some(o) => Some(old_record_view(o)), None => None },
            id@,
            state,
            new_record_oid@,
        ) + spec_public_moves(
            match *old { Some(o) => public_ref_of(o.name@, o.state), None => None },
            public_ref_of(name@, state),
            match expected_record_oid { Some(e) => e@, None => seq![] },
            new_record_oid@,
        ),
{
    let mut commands: Vec<String> = Vec::new();
    let new_record_ref = StaircaseRefs::record(id, state);
    match old {
        None => push_ref_command(&mut commands, new_record_ref.as_str(), None, Some(new_record_oid)),
        Some(o) => {
            if o.state == state {
                push_ref_command(&mut commands, new_record_ref.as_str(), Some(o.record_oid.as_str()), Some(new_record_oid));
            } else {
                let old_ref = StaircaseRefs::record(o.id.as_str(), o.state);
                push_ref_command(&mut commands, old_ref.as_str(), Some(o.record_oid.as_str()), None);
                push_ref_command(&mut commands, new_record_ref.as_str(), None, Some(new_record_oid));
            }
        },
    }
    let old_public = match old {
        Some(o) => StaircaseRefs::public_optional(Some(o.name.as_str()), o.state),
        None => None,
    };
    let new_public = StaircaseRefs::public_optional(Some(name), state);
    let expected = match expected_record_oid {
        Some(e) => e,
        None => "",
    };
    proof {
        reveal_strlit("");
    }
    match (&old_public, &new_public) {
        (None, Some(new_ref)) => push_ref_command(&mut commands, new_ref.as_str(), None, Some(new_record_oid)),
        (Some(old_ref), None) => push_ref_command(&mut commands, old_ref.as_str(), Some(expected), None),
        (Some(old_ref), Some(new_ref)) => {
            if str_eq(old_ref.as_str(), new_ref.as_str()) {
                push_ref_command(&mut commands, new_ref.as_str(), Some(expected), Some(new_record_oid));
            } else {
                push_ref_command(&mut commands, old_ref.as_str(), Some(expected), None);
                push_ref_command(&mut commands, new_ref.as_str(), None, Some(new_record_oid));
            }
        },
        (None, None) => {},
    }
    commands
}

/// The descriptive metadata that a record stores: `user_metadata` without
/// the extensions that the structure document carries.
pub fn descriptive_metadata(user_metadata: &StaircaseUserMetadata) -> (r: StaircaseUserMetadata)
    ensures
        !r.extensions.view().contains_key(POLICY_EXTENSION@),
        !r.extensions.view().contains_key(DISCOVERY_EXTENSION@),
        !r.extensions.view().contains_key(ANCHOR_EXTENSION@),
        !r.extensions.view().contains_key(STRUCTURAL_STATE_EXTENSION@),
        !r.extensions.view().contains_key(GERRIT_EXTENSION@),
        !r.extensions.view().contains_key(GITHUB_EXTENSION@),
        forall|k: Seq<char>| #[trigger] r.extensions.view().contains_key(k) ==> user_metadata.extensions.view().contains_key(k)
            && r.extensions.view()[k]@ == user_metadata.extensions.view()[k]@,
        forall|k: Seq<char>| #[trigger] user_metadata.extensions.view().contains_key(k) && k != POLICY_EXTENSION@
            && k != DISCOVERY_EXTENSION@ && k != ANCHOR_EXTENSION@ && k != STRUCTURAL_STATE_EXTENSION@
            && k != GERRIT_EXTENSION@ && k != GITHUB_EXTENSION@ ==> r.extensions.view().contains_key(k),
        r.title == user_metadata.title && r.description == user_metadata.description,
        r.labels@ == user_metadata.labels@ && r.links@ == user_metadata.links@,
        r.step_metadata.key_seq() == user_metadata.step_metadata.key_seq(),
        r.created_at == user_metadata.created_at && r.created_by == user_metadata.created_by,
        r.updated_at == user_metadata.updated_at && r.updated_by == user_metadata.updated_by,
{
    let entries = user_metadata.extensions.entries();
    let mut kept: StringMap<String> = StringMap::new();
    let mut i: usize = 0;
    while i < entries.len()
        invariant
            i <= entries@.len(),
            forall|j: int| 0 <= j < entries@.len() ==> user_metadata.extensions.view().contains_key(#[trigger] entries@[j].0@),
            !kept.view().contains_key(POLICY_EXTENSION@),
            !kept.view().contains_key(DISCOVERY_EXTENSION@),
            !kept.view().contains_key(ANCHOR_EXTENSION@),
            !kept.view().contains_key(STRUCTURAL_STATE_EXTENSION@),
            !kept.view().contains_key(GERRIT_EXTENSION@),
            !kept.view().contains_key(GITHUB_EXTENSION@),
            forall|k: Seq<char>| #[trigger] kept.view().contains_key(k) ==> user_metadata.extensions.view().contains_key(k)
                && kept.view()[k]@ == user_metadata.extensions.view()[k]@,
            forall|j: int| 0 <= j < entries@.len() ==> user_metadata.extensions.view()[#[trigger] entries@[j].0@] == entries@[j].1,
            forall|k: Seq<char>| #[trigger] user_metadata.extensions.view().contains_key(k) ==> exists|j: int| 0 <= j < entries@.len()
                && entries@[j].0@ == k,
            forall|j: int| 0 <= j < i && entries@[j].0@ != POLICY_EXTENSION@ && entries@[j].0@ != DISCOVERY_EXTENSION@
                && entries@[j].0@ != ANCHOR_EXTENSION@ && entries@[j].0@ != STRUCTURAL_STATE_EXTENSION@
                && entries@[j].0@ != GERRIT_EXTENSION@ && entries@[j].0@ != GITHUB_EXTENSION@
                ==> kept.view().contains_key(#[trigger] entries@[j].0@),
        decreases entries@.len() - i,
    {
        let ghost prev = kept.view();
        let k = entries[i].0.as_str();
        let structural = str_eq(k, POLICY_EXTENSION) || str_eq(k, DISCOVERY_EXTENSION) || str_eq(k, ANCHOR_EXTENSION)
            || str_eq(k, STRUCTURAL_STATE_EXTENSION) || str_eq(k, GERRIT_EXTENSION) || str_eq(k, GITHUB_EXTENSION);
        if !structural {
            kept.insert(entries[i].0.clone(), entries[i].1.clone());
        }
        proof {
            assert forall|j: int| 0 <= j < i + 1 && entries@[j].0@ != POLICY_EXTENSION@ && entries@[j].0@ != DISCOVERY_EXTENSION@
                && entries@[j].0@ != ANCHOR_EXTENSION@ && entries@[j].0@ != STRUCTURAL_STATE_EXTENSION@
                && entries@[j].0@ != GERRIT_EXTENSION@ && entries@[j].0@ != GITHUB_EXTENSION@
                implies kept.view().contains_key(#[trigger] entries@[j].0@) by {
                if j < i {
                    assert(prev.contains_key(entries@[j].0@));
                }
            }
        }
        i += 1;
    }
    let mut links: Vec<StaircaseLink> = Vec::new();
    let mut q: usize = 0;
    while q < user_metadata.links.len()
        invariant
            q <= user_metadata.links@.len(),
            links@ == user_metadata.links@.take(q as int),
        decreases user_metadata.links@.len() - q,
    {
        links.push(user_metadata.links[q].copy());
        proof {
            assert(links@ =~= user_metadata.links@.take(q + 1));
        }
        q += 1;
    }
    proof {
        assert(links@ =~= user_metadata.links@);
        assert forall|k: Seq<char>| #[trigger] user_metadata.extensions.view().contains_key(k) && k != POLICY_EXTENSION@
            && k != DISCOVERY_EXTENSION@ && k != ANCHOR_EXTENSION@ && k != STRUCTURAL_STATE_EXTENSION@
            && k != GERRIT_EXTENSION@ && k != GITHUB_EXTENSION@ implies kept.view().contains_key(k) by {
            let j = choose|j: int| 0 <= j < entries@.len() && entries@[j].0@ == k;
        }
    }
    StaircaseUserMetadata {
        title: copy_text(&user_metadata.title),
        description: copy_text(&user_metadata.description),
        labels: user_metadata.labels.clone(),
        links,
        step_metadata: user_metadata.step_metadata.clone(),
        extensions: kept,
        created_at: copy_text(&user_metadata.created_at),
        created_by: copy_text(&user_metadata.created_by),
        updated_at: copy_text(&user_metadata.updated_at),
        updated_by: copy_text(&user_metadata.updated_by),
    }
}

/// `a` holds the descriptive fields of `b`: title, description, labels,
/// links, and who created and last updated it, and when.
pub open spec fn same_descriptive(a: StaircaseUserMetadata, b: StaircaseUserMetadata) -> bool {
    &&& a.title == b.title && a.description == b.description
    &&& a.labels@ == b.labels@ && a.links@ == b.links@
    &&& a.created_at == b.created_at && a.created_by == b.created_by
    &&& a.updated_at == b.updated_at && a.updated_by == b.updated_by
}

/// A copy of `u`.
fn copy_user_metadata(u: &StaircaseUserMetadata) -> (r: StaircaseUserMetadata)
    ensures
        same_descriptive(r, *u),
{
    let mut links: Vec<StaircaseLink> = Vec::new();
    let mut q: usize = 0;
    while q < u.links.len()
        invariant
            q <= u.links@.len(),
            links@ == u.links@.take(q as int),
        decreases u.links@.len() - q,
    {
        links.push(u.links[q].copy());
        proof {
            assert(links@ =~= u.links@.take(q + 1));
        }
        q += 1;
    }
    proof {
        assert(links@ =~= u.links@);
    }
    StaircaseUserMetadata {
        title: copy_text(&u.title),
        description: copy_text(&u.description),
        labels: u.labels.clone(),
        links,
        step_metadata: u.step_metadata.clone(),
        extensions: u.extensions.clone(),
        created_at: copy_text(&u.created_at),
        created_by: copy_text(&u.created_by),
        updated_at: copy_text(&u.updated_at),
        updated_by: copy_text(&u.updated_by),
    }
}

/// A copy of an optional text.
fn copy_text(o: &Option<String>) -> (r: Option<String>)
    ensures
        r == *o,
{
    match o {
        Some(t) => Some(t.clone()),
        None => None,
    }
}

/// Creates the record tree of a staircase (structure, descriptive metadata,
/// lifecycle and, if given, archive manifest) and, when `update_refs`,
/// publishes it in place of the record at `expected_record_oid`.
pub fn write_record(
    repo: &GitRepo,
    metadata: &StaircaseMetadata,
    user_metadata: &StaircaseUserMetadata,
    lifecycle: &StaircaseLifecycle,
    archive_manifest: Option<&ArchiveManifest>,
    expected_record_oid: Option<&str>,
    update_refs: bool,
) -> (r: Result<StaircaseRecord>)
    ensures
        r matches Ok(rec) ==> same_descriptive(rec.user_metadata, *user_metadata),
{
    let structure_desc = serialize_structure(repo, metadata, user_metadata)?;
    let structure_oid = repo.write_blob(structure_desc.as_str())?;
    let descriptive = descriptive_metadata(user_metadata);
    let metadata_oid = write_versioned(repo, "git-staircase-metadata 1", &RecordPart::UserMetadata(descriptive))?;
    let lifecycle_oid = write_versioned(repo, "git-staircase-lifecycle 1", &RecordPart::Lifecycle(lifecycle.clone()))?;
    let mut entries: Vec<TreeEntry> = Vec::new();
    let manifest_oid = match archive_manifest {
        Some(manifest) => {
            let m_oid = write_versioned(repo, "git-staircase-archive-manifest 1", &RecordPart::Manifest(manifest.clone()))?;
            entries.push(TreeEntry::blob(m_oid.as_str(), "archive-manifest"));
            Some(m_oid)
        },
        None => None,
    };
    entries.push(TreeEntry::blob(lifecycle_oid.as_str(), "lifecycle"));
    entries.push(TreeEntry::blob(metadata_oid.as_str(), "metadata"));
    entries.push(TreeEntry::blob(structure_oid.as_str(), "structure"));
    let record_oid = repo.write_tree(entries.as_slice())?;
    let mut full_meta = metadata.clone();
    full_meta.user_metadata = Some(user_metadata.clone());
    full_meta.lifecycle = Some(lifecycle.clone());
    if update_refs {
        publish_record(repo, metadata, lifecycle, expected_record_oid, record_oid.as_str())?;
    }
    Ok(StaircaseRecord {
        record_oid,
        structure_oid,
        metadata_oid,
        lifecycle_oid,
        archive_manifest_oid: manifest_oid,
        metadata: full_meta,
        user_metadata: copy_user_metadata(user_metadata),
        lifecycle: lifecycle.clone(),
        archive_manifest: match archive_manifest {
            Some(m) => Some(m.clone()),
            None => None,
        },
    })
}

/// Fails with `ConcurrentRecordUpdate` unless `reference` holds `expected`.
pub fn assert_ref(repo: &GitRepo, reference: &str, expected: &str) -> (r: Result<()>)
    ensures
        r matches Err(StaircaseError::ConcurrentRecordUpdate { reference: rf, expected: ex, .. }) ==> rf@ == reference@
            && ex@ == expected@,
        r matches Err(e) ==> (e is Io || e is ConcurrentRecordUpdate),
{
    let actual = match repo.resolve_ref_opt(reference)? {
        Some(a) => a,
        None => owned("<missing>"),
    };
    if !str_eq(actual.as_str(), expected) {
        return Err(StaircaseError::ConcurrentRecordUpdate {
            reference: owned(reference),
            expected: owned(expected),
            actual,
        });
    }
    Ok(())
}

/// The cut of each step key (a later step of a key wins).
pub open spec fn spec_step_cuts(steps: Seq<Step>) -> Map<Seq<char>, Seq<char>>
    decreases steps.len(),
{
    if steps.len() == 0 {
        Map::empty()
    } else {
        spec_step_cuts(steps.drop_last()).insert(spec_step_key(steps.last()), steps.last().cut@)
    }
}

/// The step refs of `steps` by key, mapped to their cuts (see
/// [`spec_step_cuts`]), in key order.
pub fn step_cuts(steps: &Vec<Step>) -> (r: SortedMap<String>)
    ensures
        r.view().dom() == spec_step_cuts(steps@).dom(),
        forall|k: Seq<char>| #[trigger] r.view().contains_key(k) ==> r.view()[k]@ == spec_step_cuts(steps@)[k],
{
    let mut m: SortedMap<String> = SortedMap::new();
    let mut i: usize = 0;
    proof {
        assert(steps@.take(0) =~= seq![]);
        assert(m.view().dom() =~= spec_step_cuts(steps@.take(0)).dom());
    }
    while i < steps.len()
        invariant
            i <= steps@.len(),
            m.view().dom() == spec_step_cuts(steps@.take(i as int)).dom(),
            forall|k: Seq<char>| #[trigger] m.view().contains_key(k) ==> m.view()[k]@ == spec_step_cuts(steps@.take(i as int))[k],
        decreases steps@.len() - i,
    {
        let ghost prev = m.view();
        let cut = steps[i].cut.clone();
        m.insert(owned(step_key(&steps[i])), cut);
        proof {
            let t = steps@.take(i + 1);
            assert(t.drop_last() =~= steps@.take(i as int));
            assert(t.last() == steps@[i as int]);
            assert(m.view().dom() =~= spec_step_cuts(t).dom());
        }
        i += 1;
    }
    proof {
        assert(steps@.take(steps@.len() as int) =~= steps@);
    }
    m
}

/// The ref of step `key` of staircase `id` in lifecycle state `state`.
pub open spec fn spec_step_ref(id: Seq<char>, key: Seq<char>, state: LifecycleState) -> Seq<char> {
    match state {
        LifecycleState::Active => "refs/staircase-state/"@ + id + "/steps/"@ + key,
        LifecycleState::Archived => "refs/staircase-archive/"@ + id + "/steps/"@ + key,
    }
}

/// The lifecycle state that `archived` stands for.
pub open spec fn state_of(archived: bool) -> LifecycleState {
    if archived { LifecycleState::Archived } else { LifecycleState::Active }
}

/// The step-ref commands of a publication: each old step ref whose key the
/// new record drops, or whose lifecycle state changes, is deleted from
/// where it now points (nothing when it is absent); then each new step ref
/// is created or updated to its cut, in key order.
pub open spec fn spec_step_ref_commands(
    id: Seq<char>,
    old_keys: Seq<Seq<char>>,
    old_archived: bool,
    old_current: Seq<Option<Seq<char>>>,
    new_entries: Seq<(Seq<char>, Seq<char>)>,
    new_archived: bool,
    new_current: Seq<Option<Seq<char>>>,
) -> Seq<Seq<char>> {
    step_deletions(id, old_keys, old_archived, old_current, new_entries.map_values(|e: (Seq<char>, Seq<char>)| e.0), new_archived)
        + step_placements(id, new_entries, new_archived, new_current)
}

/// Whether an old step ref is dropped: its key is gone or its state changes.
pub open spec fn step_dropped(key: Seq<char>, old_archived: bool, new_keys: Seq<Seq<char>>, new_archived: bool) -> bool {
    old_archived != new_archived || !new_keys.contains(key)
}

/// The deletions of dropped old step refs (see [`spec_step_ref_commands`]).
pub open spec fn step_deletions(
    id: Seq<char>,
    old_keys: Seq<Seq<char>>,
    old_archived: bool,
    old_current: Seq<Option<Seq<char>>>,
    new_keys: Seq<Seq<char>>,
    new_archived: bool,
) -> Seq<Seq<char>>
    decreases old_keys.len(),
{
    if old_keys.len() == 0 {
        seq![]
    } else {
        let n = old_keys.len() - 1;
        let before = step_deletions(id, old_keys.drop_last(), old_archived, old_current, new_keys, new_archived);
        if step_dropped(old_keys[n], old_archived, new_keys, new_archived) {
            before + ref_command(spec_step_ref(id, old_keys[n], state_of(old_archived)), old_current[n], None)
        } else {
            before
        }
    }
}

/// The creations and updates of the new step refs (see [`spec_step_ref_commands`]).
pub open spec fn step_placements(
    id: Seq<char>,
    new_entries: Seq<(Seq<char>, Seq<char>)>,
    new_archived: bool,
    new_current: Seq<Option<Seq<char>>>,
) -> Seq<Seq<char>>
    decreases new_entries.len(),
{
    if new_entries.len() == 0 {
        seq![]
    } else {
        let n = new_entries.len() - 1;
        step_placements(id, new_entries.drop_last(), new_archived, new_current) + ref_command(
            spec_step_ref(id, new_entries[n].0, state_of(new_archived)),
            new_current[n],
            Some(new_entries[n].1),
        )
    }
}

/// The view of a list of optional object ids.
pub open spec fn opt_views(v: Seq<Option<String>>) -> Seq<Option<Seq<char>>> {
    v.map_values(|o: Option<String>| opt_view(o))
}

/// The entries of a cut table by their characters.
pub open spec fn cut_entries(v: Seq<(String, String)>) -> Seq<(Seq<char>, Seq<char>)> {
    v.map_values(|e: (String, String)| (e.0@, e.1@))
}

/// Whether the new step keys hold `key`.
fn has_key(entries: &Vec<(String, String)>, key: &str) -> (b: bool)
    ensures
        b == cut_entries(entries@).map_values(|e: (Seq<char>, Seq<char>)| e.0).contains(key@),
{
    let ghost ks = cut_entries(entries@).map_values(|e: (Seq<char>, Seq<char>)| e.0);
    let mut i: usize = 0;
    while i < entries.len()
        invariant
            ks == cut_entries(entries@).map_values(|e: (Seq<char>, Seq<char>)| e.0),
            i <= entries@.len(),
            forall|j: int| 0 <= j < i ==> ks[j] != key@,
        decreases entries@.len() - i,
    {
        if str_eq(entries[i].0.as_str(), key) {
            proof {
                assert(ks[i as int] == key@);
            }
            return true;
        }
        i += 1;
    }
    proof {
        if ks.contains(key@) {
            let j = choose|j: int| 0 <= j < ks.len() && ks[j] == key@;
            assert(ks[j] != key@);
        }
    }
    false
}

/// The step-ref commands of a publication (see [`spec_step_ref_commands`]);
/// `old_current[i]` is where the `i`-th old step ref now points, when it is
/// dropped, and `new_current[j]` where the `j`-th new one does.
pub fn step_ref_commands(
    id: &str,
    old_keys: &Vec<String>,
    old_archived: bool,
    old_current: &Vec<Option<String>>,
    new_entries: &Vec<(String, String)>,
    new_archived: bool,
    new_current: &Vec<Option<String>>,
) -> (commands: Vec<String>)
    requires
        old_current@.len() == old_keys@.len(),
        new_current@.len() == new_entries@.len(),
    ensures
        views(commands@) == spec_step_ref_commands(
            id@,
            views(old_keys@),
            old_archived,
            opt_views(old_current@),
            cut_entries(new_entries@),
            new_archived,
            opt_views(new_current@),
        ),
{
    let ghost ok = views(old_keys@);
    let ghost oc = opt_views(old_current@);
    let ghost ne = cut_entries(new_entries@);
    let ghost nk = ne.map_values(|e: (Seq<char>, Seq<char>)| e.0);
    let ghost nc = opt_views(new_current@);
    let old_state = if old_archived { LifecycleState::Archived } else { LifecycleState::Active };
    let new_state = if new_archived { LifecycleState::Archived } else { LifecycleState::Active };
    let mut commands: Vec<String> = Vec::new();
    let mut i: usize = 0;
    proof {
        assert(ok.take(0) =~= seq![]);
    }
    while i < old_keys.len()
        invariant
            ok == views(old_keys@),
            oc == opt_views(old_current@),
            ne == cut_entries(new_entries@),
            nk == ne.map_values(|e: (Seq<char>, Seq<char>)| e.0),
            old_current@.len() == old_keys@.len(),
            old_state == state_of(old_archived),
            i <= old_keys@.len(),
            views(commands@) == step_deletions(id@, ok.take(i as int), old_archived, oc, nk, new_archived),
        decreases old_keys@.len() - i,
    {
        let key = old_keys[i].as_str();
        let dropped = old_archived != new_archived || !has_key(new_entries, key);
        proof {
            let t = ok.take(i + 1);
            assert(t.drop_last() =~= ok.take(i as int));
            assert(t[i as int] == key@);
            assert(oc[i as int] == opt_view(old_current@[i as int]));
        }
        if dropped {
            let r = StaircaseRefs::step(id, key, old_state);
            let current = match &old_current[i] {
                Some(c) => Some(c.as_str()),
                None => None,
            };
            push_ref_command(&mut commands, r.as_str(), current, None);
        }
        i += 1;
    }
    proof {
        assert(ok.take(ok.len() as int) =~= ok);
        assert(ne.take(0) =~= seq![]);
    }
    let ghost deletions = views(commands@);
    let mut j: usize = 0;
    while j < new_entries.len()
        invariant
            ne == cut_entries(new_entries@),
            nc == opt_views(new_current@),
            new_current@.len() == new_entries@.len(),
            new_state == state_of(new_archived),
            j <= new_entries@.len(),
            views(commands@) == deletions + step_placements(id@, ne.take(j as int), new_archived, nc),
        decreases new_entries@.len() - j,
    {
        let key = new_entries[j].0.as_str();
        let oid = new_entries[j].1.as_str();
        proof {
            let t = ne.take(j + 1);
            assert(t.drop_last() =~= ne.take(j as int));
            assert(t[j as int] == (key@, oid@));
            assert(nc[j as int] == opt_view(new_current@[j as int]));
        }
        let r = StaircaseRefs::step(id, key, new_state);
        let current = match &new_current[j] {
            Some(c) => Some(c.as_str()),
            None => None,
        };
        let ghost before = views(commands@);
        push_ref_command(&mut commands, r.as_str(), current, Some(oid));
        proof {
            assert(views(commands@) =~= deletions + step_placements(id@, ne.take(j + 1), new_archived, nc));
        }
        j += 1;
    }
    proof {
        assert(ne.take(ne.len() as int) =~= ne);
    }
    commands
}

/// The text of an optional string.
pub open spec fn opt_str_view(o: Option<&str>) -> Option<Seq<char>> {
    match o {
        Some(e) => Some(e@),
        None => None,
    }
}

/// The commands of a record publication (see [`record_ref_commands`] and
/// [`step_ref_commands`]), the step part given the current value of each
/// step ref it may touch.
pub open spec fn spec_publication_commands(
    old: Option<OldRecord>,
    id: Seq<char>,
    name: Seq<char>,
    state: LifecycleState,
    expected_record_oid: Option<Seq<char>>,
    new_record_oid: Seq<char>,
    old_keys: Seq<Seq<char>>,
    old_current: Seq<Option<Seq<char>>>,
    new_entries: Seq<(Seq<char>, Seq<char>)>,
    new_current: Seq<Option<Seq<char>>>,
) -> Seq<Seq<char>> {
    spec_record_moves(
        match old { Some(o) => Some(old_record_view(o)), None => None },
        id,
        state,
        new_record_oid,
    ) + spec_public_moves(
        match old { Some(o) => public_ref_of(o.name@, o.state), None => None },
        public_ref_of(name, state),
        match expected_record_oid { Some(e) => e, None => seq![] },
        new_record_oid,
    ) + spec_step_ref_commands(
        id,
        old_keys,
        match old { Some(o) => o.state == LifecycleState::Archived, None => false },
        old_current,
        new_entries,
        state == LifecycleState::Archived,
        new_current,
    )
}

/// The mutation plan of a record publication: kind `record-publication`,
/// lineage `id`, expecting `expected_record_oid`, with one ref move for
/// each command of [`spec_publication_commands`], in order. A command that
/// is not a ref move is an error.
pub fn record_publication_plan(
    old: &Option<OldRecord>,
    id: &str,
    name: &str,
    state: LifecycleState,
    expected_record_oid: Option<&str>,
    new_record_oid: &str,
    old_keys: &Vec<String>,
    old_current: &Vec<Option<String>>,
    new_entries: &Vec<(String, String)>,
    new_current: &Vec<Option<String>>,
) -> (r: Result<MutationPlan>)
    requires
        old is Some ==> expected_record_oid is Some,
        old_current@.len() == old_keys@.len(),
        new_current@.len() == new_entries@.len(),
    ensures
        ({
            let cmds = spec_publication_commands(*old, id@, name@, state, opt_str_view(expected_record_oid), new_record_oid@, views(old_keys@), opt_views(old_current@), cut_entries(new_entries@), opt_views(new_current@));
            &&& (forall|i: int| 0 <= i < cmds.len() ==> (#[trigger] command_mutation(words(cmds[i]))) is Some) ==> r is Ok
            &&& r is Err ==> exists|i: int| 0 <= i < cmds.len() && (#[trigger] command_mutation(words(cmds[i]))) is None
            &&& r matches Ok(p) ==> {
                &&& p.kind@ == "record-publication"@
                &&& (p.lineage_id matches Some(l) && l@ == id@)
                &&& (match expected_record_oid {
                    Some(e) => p.expected_record_revision matches Some(x) && x@ == e@,
                    None => p.expected_record_revision is None,
                })
                &&& p.refs@.len() == cmds.len()
                &&& forall|i: int| 0 <= i < cmds.len() ==> command_mutation(words(cmds[i])) == Some(mutation_view(#[trigger] p.refs@[i]))
            }
        }),
{
    let ghost cmds = spec_publication_commands(*old, id@, name@, state, opt_str_view(expected_record_oid), new_record_oid@, views(old_keys@), opt_views(old_current@), cut_entries(new_entries@), opt_views(new_current@));
    let mut commands = record_ref_commands(old, id, name, state, expected_record_oid, new_record_oid);
    let old_archived = match old {
        Some(o) => o.state == LifecycleState::Archived,
        None => false,
    };
    let new_archived = state == LifecycleState::Archived;
    let step_commands = step_ref_commands(id, old_keys, old_archived, old_current, new_entries, new_archived, new_current);
    let ghost first = views(commands@);
    let mut c: usize = 0;
    while c < step_commands.len()
        invariant
            c <= step_commands@.len(),
            views(commands@) == first + views(step_commands@).take(c as int),
        decreases step_commands@.len() - c,
    {
        let ghost before = commands@;
        commands.push(step_commands[c].clone());
        proof {
            crate::text::lemma_views_push(before, step_commands@[c as int]);
            assert(views(step_commands@).take(c + 1) =~= views(step_commands@).take(c as int).push(step_commands@[c as int]@));
            assert(views(commands@) =~= first + views(step_commands@).take(c + 1));
        }
        c += 1;
    }
    proof {
        assert(views(step_commands@).take(step_commands@.len() as int) =~= views(step_commands@));
        assert(views(commands@) =~= cmds);
    }
    let expected_owned = match expected_record_oid {
        Some(e) => Some(owned(e)),
        None => None,
    };
    let mut plan = MutationPlan::new("record-publication", Some(owned(id))).expected_record(expected_owned);
    proof {
        reveal_strlit("record-publication");
    }
    let mut k: usize = 0;
    while k < commands.len()
        invariant
            k <= commands@.len(),
            views(commands@) == cmds,
            cmds == spec_publication_commands(*old, id@, name@, state, opt_str_view(expected_record_oid), new_record_oid@, views(old_keys@), opt_views(old_current@), cut_entries(new_entries@), opt_views(new_current@)),
            plan.kind@ == "record-publication"@,
            plan.lineage_id matches Some(l) && l@ == id@,
            match expected_record_oid {
                Some(e) => plan.expected_record_revision matches Some(x) && x@ == e@,
                None => plan.expected_record_revision is None,
            },
            plan.refs@.len() == k,
            forall|i: int| 0 <= i < k ==> command_mutation(words(cmds[i])) == Some(mutation_view(#[trigger] plan.refs@[i])),
        decreases commands@.len() - k,
    {
        proof {
            assert(cmds[k as int] == commands@[k as int]@);
        }
        let ghost prev = plan.refs@;
        match add_command_to_plan(&mut plan, commands[k].as_str()) {
            Err(e) => {
                proof {
                    assert(views(commands@).len() == commands@.len());
                    assert(0 <= k < cmds.len());
                    assert(command_mutation(words(cmds[k as int])) is None);
                }
                return Err(e);
            },
            Ok(()) => {},
        }
        proof {
            assert forall|i: int| 0 <= i < k + 1 implies command_mutation(words(cmds[i])) == Some(mutation_view(
                #[trigger] plan.refs@[i])) by {
                if i < k {
                    assert(plan.refs@[i] == plan.refs@.take(prev.len() as int)[i]);
                }
            }
        }
        k += 1;
    }
    Ok(plan)
}

/// Publishes record `new_record_oid` of `metadata` in place of the record at
/// `expected_record_oid` (none: a new staircase). The old record and public
/// refs must hold the expected record; the record, public and step refs then
/// move in one mutation plan (see [`record_ref_commands`]; step refs of the
/// old record that the new one drops, or that change lifecycle state, are
/// deleted). A failed publication of a replaced record is reported as a
/// concurrent update of the new record ref.
pub fn publish_record(
    repo: &GitRepo,
    metadata: &StaircaseMetadata,
    lifecycle: &StaircaseLifecycle,
    expected_record_oid: Option<&str>,
    new_record_oid: &str,
) -> (r: Result<()>)
{
    let old_record: Option<OldRecord> = match expected_record_oid {
        Some(oid) => {
            let rec = read_record(repo, oid)?;
            let name = if rec.metadata.name.unicode_len() == 0 {
                metadata.name.clone()
            } else {
                rec.metadata.name.clone()
            };
            Some(OldRecord {
                id: rec.metadata.id.clone(),
                name,
                state: rec.lifecycle.state,
                record_oid: rec.record_oid.clone(),
                steps: rec.metadata.steps,
            })
        },
        None => None,
    };
    match (&old_record, expected_record_oid) {
        (Some(old), Some(expected)) => {
            let old_ref = StaircaseRefs::record(old.id.as_str(), old.state);
            assert_ref(repo, old_ref.as_str(), expected)?;
            if old.state == LifecycleState::Active && old.name.unicode_len() > 0 {
                let public = StaircaseRefs::public(old.name.as_str());
                assert_ref(repo, public.as_str(), expected)?;
            }
        },
        _ => {},
    }
    let new_record_ref = StaircaseRefs::record(metadata.id.as_str(), lifecycle.state);
    let mut commands = record_ref_commands(
        &old_record,
        metadata.id.as_str(),
        metadata.name.as_str(),
        lifecycle.state,
        expected_record_oid,
        new_record_oid,
    );
    let new_archived = lifecycle.state == LifecycleState::Archived;
    let new_steps = step_cuts(&metadata.steps);
    let new_state = if new_archived { LifecycleState::Archived } else { LifecycleState::Active };
    let mut old_keys: Vec<String> = Vec::new();
    let mut old_current: Vec<Option<String>> = Vec::new();
    let mut old_archived = false;
    match &old_record {
        Some(old) => {
            old_archived = old.state == LifecycleState::Archived;
            let old_state = old.state;
            let old_steps = step_cuts(&old.steps);
            let keys = old_steps.entries();
            let mut i: usize = 0;
            while i < keys.len()
                invariant
                    i <= keys@.len(),
                    old_current@.len() == old_keys@.len(),
                decreases keys@.len() - i,
            {
                let key = keys[i].0.as_str();
                let current = if old_archived != new_archived || !new_steps.contains_key(key) {
                    repo.resolve_ref_opt(StaircaseRefs::step(metadata.id.as_str(), key, old_state).as_str())?
                } else {
                    None
                };
                old_keys.push(owned(key));
                old_current.push(current);
                i += 1;
            }
        },
        None => {},
    }
    let entries = new_steps.entries();
    let mut new_current: Vec<Option<String>> = Vec::new();
    let mut j: usize = 0;
    while j < entries.len()
        invariant
            j <= entries@.len(),
            new_current@.len() == j,
        decreases entries@.len() - j,
    {
        let new_ref = StaircaseRefs::step(metadata.id.as_str(), entries[j].0.as_str(), new_state);
        new_current.push(repo.resolve_ref_opt(new_ref.as_str())?);
        j += 1;
    }
    let plan = record_publication_plan(
        &old_record,
        metadata.id.as_str(),
        metadata.name.as_str(),
        lifecycle.state,
        expected_record_oid,
        new_record_oid,
        &old_keys,
        &old_current,
        entries,
        &new_current,
    )?;
    publish_planned_record(repo, plan, expected_record_oid, new_record_ref)
}

/// Publishes the plan of a record publication. When a replaced record was
/// expected, any failure is reported as a concurrent update of
/// `new_record_ref` away from the expected record (naming what it holds
/// now, or `<missing>`).
fn publish_planned_record(repo: &GitRepo, plan: MutationPlan, expected_record_oid: Option<&str>, new_record_ref: String) -> (r: Result<()>)
    ensures
        expected_record_oid matches Some(e) ==> (r matches Err(err) ==> (err matches StaircaseError::ConcurrentRecordUpdate {
            reference,
            expected,
            ..
        } && reference == new_record_ref && expected@ == e@)),
{
    let mut plan = plan;
    match plan.publish(repo, false) {
        Ok(_) => Ok(()),
        Err(error) => match expected_record_oid {
            Some(expected) => {
                let actual = match repo.resolve_ref_opt(new_record_ref.as_str()) {
                    Ok(Some(a)) => a,
                    _ => owned("<missing>"),
                };
                Err(StaircaseError::ConcurrentRecordUpdate {
                    reference: new_record_ref,
                    expected: owned(expected),
                    actual,
                })
            },
            None => Err(error),
        },
    }
}

/// The part that a versioned blob was expected to hold, or an error.
fn unexpected_part() -> (e: StaircaseError) {
    StaircaseError::Other(owned("stored document has an unexpected kind"))
}

/// Reads the record at `target` (a ref or an object id): a tree of regular
/// blobs with known names (see [`record_entries`]), whose structure, metadata
/// and lifecycle must be present, and whose archive manifest is present
/// exactly when the staircase is archived (see [`check_record_lifecycle`]).
/// The structural extensions join the descriptive metadata, and an archived
/// staircase takes its manifest's canonical name.
pub fn read_record(repo: &GitRepo, target: &str) -> (r: Result<StaircaseRecord>) {
    let target_oid = match repo.resolve_ref_opt(target)? {
        Some(oid) => oid,
        None => owned(target),
    };
    let obj_type = repo.get_object_type(target_oid.as_str())?;
    if !str_eq(obj_type.as_str(), "tree") {
        let mut m = cat3("record ", target_oid.as_str(), " must be a tree, found ");
        m.append(obj_type.as_str());
        return Err(StaircaseError::Other(m));
    }
    let listing = repo.ls_tree(target_oid.as_str())?;
    let entries = record_entries(target_oid.as_str(), &listing)?;
    let structure_oid = required_entry(&entries, "structure", target_oid.as_str())?;
    let metadata_oid = required_entry(&entries, "metadata", target_oid.as_str())?;
    let lifecycle_oid = required_entry(&entries, "lifecycle", target_oid.as_str())?;
    let manifest_oid: Option<String> = match entries.get("archive-manifest") {
        Some(o) => Some(o.clone()),
        None => None,
    };
    let structure = repo.cat_file(structure_oid.as_str())?;
    let (mut metadata, structural) = parse_structure(repo, structure.as_str())?;
    let mut user_metadata = match read_versioned(repo, metadata_oid.as_str(), "git-staircase-metadata 1", PartKind::UserMetadata)? {
        RecordPart::UserMetadata(m) => m,
        _ => return Err(unexpected_part()),
    };
    let ext_entries = structural.entries();
    let mut i: usize = 0;
    while i < ext_entries.len()
        invariant
            i <= ext_entries@.len(),
        decreases ext_entries@.len() - i,
    {
        let text = crate::json_text::render_json(&ext_entries[i].1);
        user_metadata.extensions.insert(ext_entries[i].0.clone(), text);
        i += 1;
    }
    let lifecycle = match read_versioned(repo, lifecycle_oid.as_str(), "git-staircase-lifecycle 1", PartKind::Lifecycle)? {
        RecordPart::Lifecycle(l) => l,
        _ => return Err(unexpected_part()),
    };
    let archive_manifest: Option<ArchiveManifest> = match &manifest_oid {
        Some(oid) => match read_versioned(repo, oid.as_str(), "git-staircase-archive-manifest 1", PartKind::Manifest)? {
            RecordPart::Manifest(m) => Some(m),
            _ => return Err(unexpected_part()),
        },
        None => None,
    };
    check_record_lifecycle(target_oid.as_str(), lifecycle.state, archive_manifest.is_some())?;
    match &archive_manifest {
        Some(m) => {
            metadata.name = m.canonical_name.clone();
        },
        None => {},
    }
    metadata.user_metadata = Some(user_metadata.clone());
    metadata.lifecycle = Some(lifecycle.clone());
    Ok(StaircaseRecord {
        record_oid: target_oid,
        structure_oid,
        metadata_oid,
        lifecycle_oid,
        archive_manifest_oid: manifest_oid,
        metadata,
        user_metadata,
        lifecycle,
        archive_manifest,
    })
}

/// Writes and publishes the record of `metadata` (steps without an id get a
/// fresh one), in place of the record its ref holds now; returns the new
/// record's id.
pub fn write_metadata(repo: &GitRepo, metadata: &StaircaseMetadata) -> (r: Result<String>) {
    let mut metadata = metadata.clone();
    let mut steps: Vec<Step> = Vec::new();
    let mut i: usize = 0;
    while i < metadata.steps.len()
        invariant
            i <= metadata.steps@.len(),
        decreases metadata.steps@.len() - i,
    {
        let mut s = metadata.steps[i].copy();
        if s.id.unicode_len() == 0 {
            s.id = crate::fresh::fresh_uuid();
        }
        steps.push(s);
        i += 1;
    }
    metadata.steps = steps;
    let user_metadata = match &metadata.user_metadata {
        Some(u) => u.clone(),
        None => StaircaseUserMetadata::default(),
    };
    let lifecycle = match &metadata.lifecycle {
        Some(l) => l.clone(),
        None => StaircaseLifecycle::default(),
    };
    let current_ref = StaircaseRefs::record(metadata.id.as_str(), lifecycle.state);
    let expected = repo.resolve_ref_opt(current_ref.as_str())?;
    let expected_str = match &expected {
        Some(e) => Some(e.as_str()),
        None => None,
    };
    let record = write_record(repo, &metadata, &user_metadata, &lifecycle, None, expected_str, true)?;
    Ok(record.record_oid)
}

/// The name of the public ref that points at `oid`, if any.
fn public_name_at(repo: &GitRepo, oid: &str) -> (r: Option<String>) {
    match repo.for_each_ref(PUBLIC_PREFIX, "%(refname)", Some(oid)) {
        Ok(lines) => {
            if lines.len() > 0 {
                strip_prefix(lines[0].as_str(), PUBLIC_PREFIX)
            } else {
                None
            }
        },
        Err(_) => None,
    }
}

/// The staircase named or identified by `id_or_name`: its public ref, else
/// its active record, else its archived record. A staircase found by id
/// without a recorded name takes the name of a public ref at its record, or
/// else its id.
pub fn read_metadata(repo: &GitRepo, id_or_name: &str) -> (r: Result<StaircaseMetadata>) {
    let name_ref = StaircaseRefs::public(id_or_name);
    let id_record_ref = StaircaseRefs::state_record(id_or_name);
    let archive_ref = StaircaseRefs::archive_record(id_or_name);
    let (ref_name, is_name) = if repo.resolve_ref_opt(name_ref.as_str())?.is_some() {
        (name_ref, true)
    } else if repo.resolve_ref_opt(id_record_ref.as_str())?.is_some() {
        (id_record_ref, false)
    } else if repo.resolve_ref_opt(archive_ref.as_str())?.is_some() {
        (archive_ref, false)
    } else {
        return Err(StaircaseError::Other(cat("Staircase not found: ", id_or_name)));
    };
    let record = read_record(repo, ref_name.as_str())?;
    let mut meta = record.metadata;
    if is_name {
        meta.name = owned(id_or_name);
    } else if meta.name.unicode_len() == 0 {
        let oid = repo.resolve_ref(ref_name.as_str())?;
        match public_name_at(repo, oid.as_str()) {
            Some(n) => {
                meta.name = n;
            },
            None => {},
        }
        if meta.name.unicode_len() == 0 {
            meta.name = meta.id.clone();
        }
    }
    Ok(meta)
}

/// The staircase whose record is object `oid`; without a recorded name it
/// takes the name of a public ref at `oid`, or else its id.
pub fn read_metadata_from_oid(repo: &GitRepo, oid: &str) -> (r: Result<StaircaseMetadata>) {
    let record = read_record(repo, oid)?;
    let mut meta = record.metadata;
    if meta.name.unicode_len() == 0 {
        match public_name_at(repo, oid) {
            Some(n) => {
                meta.name = n;
            },
            None => {},
        }
        if meta.name.unicode_len() == 0 {
            meta.name = meta.id.clone();
        }
    }
    Ok(meta)
}

} // verus!
