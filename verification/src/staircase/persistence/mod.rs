//! How staircases are stored: records (trees of JSON documents) under refs,
//! read and written as whole values.

pub mod structure;
pub mod record;
pub mod verification;

use vstd::prelude::*;
use crate::error::{Result, StaircaseError};
use crate::git::host::{PartKind, RecordPart};
use crate::git::repo::GitRepo;
use crate::model::StaircaseMetadata;
use crate::staircase::refs::{StaircaseRefs, ARCHIVE_PREFIX, PUBLIC_PREFIX, STATE_PREFIX};
use crate::git::graph::contains_text;
use crate::git::types::TreeEntry;
use crate::text::{cat, cat3, cat4, ends_with, views, owned, split_on, split_once, split_once_spec, starts_with, str_eq, strip_prefix, trim_str};
use record::{opt_views, read_metadata, read_record};

verus! {

/// `s` without its trailing newlines.
pub open spec fn trim_newlines(s: Seq<char>) -> Seq<char>
    decreases s.len(),
{
    if s.len() > 0 && s.last() == '\n' {
        trim_newlines(s.drop_last())
    } else {
        s
    }
}

/// `s` without its trailing newlines (`str::trim_end_matches('\n')`).
pub fn trim_newlines_str(s: &str) -> (r: String)
    ensures
        r@ == trim_newlines(s@),
{
    let x = crate::text::to_chars(s);
    let mut b: usize = x.len();
    proof {
        assert(s@.take(b as int) =~= s@);
    }
    while b > 0 && x[b - 1] == '\n'
        invariant
            x@ == s@,
            b <= x@.len(),
            trim_newlines(s@) == trim_newlines(s@.take(b as int)),
        decreases b,
    {
        proof {
            assert(s@.take(b as int).drop_last() =~= s@.take(b - 1));
        }
        b -= 1;
    }
    crate::text::substring(s, 0, b)
}

/// The JSON text of a versioned blob: a header line that must be
/// `expected_header`, then the JSON (without trailing newlines).
pub open spec fn versioned_body(oid: Seq<char>, content: Seq<char>, expected_header: Seq<char>) -> core::result::Result<Seq<char>, Seq<char>> {
    match split_once_spec(content, "\n"@) {
        None => Err("versioned blob "@ + oid + " has no header"@),
        Some((header, json)) => if header != expected_header {
            Err("blob "@ + oid + " has header '"@ + header + "', expected '"@ + expected_header + "'"@)
        } else {
            Ok(trim_newlines(json))
        },
    }
}

/// Splits a versioned blob into its JSON text (see [`versioned_body`]).
pub fn split_versioned(oid: &str, content: &str, expected_header: &str) -> (r: Result<String>)
    ensures
        match versioned_body(oid@, content@, expected_header@) {
            Ok(j) => r matches Ok(t) && t@ == j,
            Err(m) => r matches Err(StaircaseError::Other(e)) && e@ == m,
        },
{
    match split_once(content, "\n") {
        None => Err(StaircaseError::Other(cat3("versioned blob ", oid, " has no header"))),
        Some((header, json)) => {
            if !str_eq(header.as_str(), expected_header) {
                let mut m = cat3("blob ", oid, " has header '");
                m.append(header.as_str());
                m.append("', expected '");
                m.append(expected_header);
                m.append("'");
                return Err(StaircaseError::Other(m));
            }
            Ok(trim_newlines_str(json.as_str()))
        },
    }
}

/// Reads the versioned blob `oid` as a document of `kind`.
pub fn read_versioned(repo: &GitRepo, oid: &str, expected_header: &str, kind: PartKind) -> (r: Result<RecordPart>) {
    let content = repo.cat_file(oid)?;
    let json = split_versioned(oid, content.as_str(), expected_header)?;
    repo.host.decode_part(kind, json.as_str())
}

/// Stores `part` as a versioned blob: `header`, a newline, its canonical
/// JSON and a newline.
pub fn write_versioned(repo: &GitRepo, header: &str, part: &RecordPart) -> (r: Result<String>) {
    let json = repo.host.encode_part(part)?;
    let mut content = cat3(header, "\n", json.as_str());
    content.append("\n");
    repo.write_blob(content.as_str())
}

/// The active staircases.
pub fn list_staircases(repo: &GitRepo) -> (r: Result<Vec<StaircaseMetadata>>) {
    list_staircases_filtered(repo, true, false)
}

/// The archived staircases.
pub fn list_archived_staircases(repo: &GitRepo) -> (r: Result<Vec<StaircaseMetadata>>) {
    list_staircases_filtered(repo, false, true)
}

/// Every staircase, active and archived.
pub fn list_all_staircases(repo: &GitRepo) -> (r: Result<Vec<StaircaseMetadata>>) {
    list_staircases_filtered(repo, true, true)
}

/// The staircases, each once by id: with `include_active`, those with a
/// public ref (named by it; verification refs are not staircases) and then
/// the unnamed active records; with `include_archived`, the archived records.
pub fn list_staircases_filtered(repo: &GitRepo, include_active: bool, include_archived: bool) -> (r: Result<Vec<StaircaseMetadata>>)
{
    let mut staircases: Vec<StaircaseMetadata> = Vec::new();
    let mut seen_ids: Vec<String> = Vec::new();
    if include_active {
        let lines = repo.for_each_ref(PUBLIC_PREFIX, "%(refname)", None)?;
        let mut i: usize = 0;
        while i < lines.len()
            invariant
                i <= lines@.len(),
            decreases lines@.len() - i,
        {
            let refname = trim_str(lines[i].as_str());
            let name = match strip_prefix(refname.as_str(), PUBLIC_PREFIX) {
                Some(n) => n,
                None => String::new(),
            };
            if !(starts_with(name.as_str(), "by-revision/") || ends_with(name.as_str(), "/verification")) {
                let mut record = read_record(repo, refname.as_str())?;
                record.metadata.name = name;
                seen_ids.push(record.metadata.id.clone());
                staircases.push(record.metadata);
            }
            i += 1;
        }
        let lines = repo.for_each_ref(STATE_PREFIX, "%(refname)", None)?;
        let mut j: usize = 0;
        while j < lines.len()
            invariant
                j <= lines@.len(),
            decreases lines@.len() - j,
        {
            let refname = trim_str(lines[j].as_str());
            if ends_with(refname.as_str(), "/record") {
                let rest = match strip_prefix(refname.as_str(), STATE_PREFIX) {
                    Some(r) => r,
                    None => String::new(),
                };
                let parts = split_on(rest.as_str(), '/');
                if parts.len() == 2 && !contains_text(&seen_ids, parts[0].as_str()) {
                    let meta = read_metadata(repo, parts[0].as_str())?;
                    seen_ids.push(meta.id.clone());
                    staircases.push(meta);
                }
            }
            j += 1;
        }
    }
    if include_archived {
        let lines = repo.for_each_ref(ARCHIVE_PREFIX, "%(refname)", None)?;
        let mut k: usize = 0;
        while k < lines.len()
            invariant
                k <= lines@.len(),
            decreases lines@.len() - k,
        {
            let refname = trim_str(lines[k].as_str());
            if ends_with(refname.as_str(), "/record") {
                let rest = match strip_prefix(refname.as_str(), ARCHIVE_PREFIX) {
                    Some(r) => r,
                    None => String::new(),
                };
                let parts = split_on(rest.as_str(), '/');
                if parts.len() == 2 && str_eq(parts[1].as_str(), "record") && !contains_text(&seen_ids, parts[0].as_str()) {
                    let record = read_record(repo, refname.as_str())?;
                    seen_ids.push(record.metadata.id.clone());
                    staircases.push(record.metadata);
                }
            }
            k += 1;
        }
    }
    Ok(staircases)
}

/// The refs that deleting staircase `id` named `name` removes when they
/// exist: its active and archived record refs, its verification ref and,
/// for a non-empty name, its public ref.
pub open spec fn spec_staircase_refs(id: Seq<char>, name: Seq<char>) -> Seq<Seq<char>> {
    seq![
        "refs/staircase-state/"@ + id + "/record"@,
        "refs/staircase-archive/"@ + id + "/record"@,
        "refs/staircases/"@ + id + "/verification"@,
    ] + if name.len() > 0 { seq!["refs/staircases/"@ + name] } else { seq![] }
}

/// The `delete` commands for those of `refs` that hold a value, in order.
pub open spec fn spec_delete_commands(refs: Seq<Seq<char>>, current: Seq<Option<Seq<char>>>) -> Seq<Seq<char>>
    decreases refs.len(),
{
    if refs.len() == 0 {
        seq![]
    } else {
        spec_delete_commands(refs.drop_last(), current) + match current[refs.len() - 1] {
            Some(o) => seq!["delete "@ + refs.last() + " "@ + o],
            None => seq![],
        }
    }
}

/// The refs of [`spec_staircase_refs`].
pub fn staircase_refs(id: &str, name: &str) -> (r: Vec<String>)
    ensures
        views(r@) == spec_staircase_refs(id@, name@),
{
    let mut refs: Vec<String> = Vec::new();
    refs.push(StaircaseRefs::state_record(id));
    refs.push(StaircaseRefs::archive_record(id));
    refs.push(StaircaseRefs::verification(id));
    if name.unicode_len() > 0 {
        refs.push(StaircaseRefs::public(name));
    }
    proof {
        assert(views(refs@) =~= spec_staircase_refs(id@, name@));
    }
    refs
}

/// The commands of [`spec_delete_commands`], `current[i]` being what
/// `refs[i]` holds.
pub fn delete_commands(refs: &Vec<String>, current: &Vec<Option<String>>) -> (r: Vec<String>)
    requires
        current@.len() == refs@.len(),
    ensures
        views(r@) == spec_delete_commands(views(refs@), opt_views(current@)),
{
    let mut commands: Vec<String> = Vec::new();
    let mut i: usize = 0;
    while i < refs.len()
        invariant
            i <= refs@.len(),
            current@.len() == refs@.len(),
            views(commands@) == spec_delete_commands(views(refs@).take(i as int), opt_views(current@)),
        decreases refs@.len() - i,
    {
        let ghost before = commands@;
        match &current[i] {
            Some(oid) => {
                let mut c = cat3("delete ", refs[i].as_str(), " ");
                c.append(oid.as_str());
                commands.push(c);
                proof {
                    crate::text::lemma_views_push(before, c);
                }
            },
            None => {},
        }
        proof {
            let t = views(refs@).take(i + 1);
            assert(t.drop_last() =~= views(refs@).take(i as int));
            assert(t.last() == refs@[i as int]@);
            assert(opt_views(current@)[i as int] == crate::text::opt_view(current@[i as int]));
            assert(views(commands@) =~= spec_delete_commands(t, opt_views(current@)));
        }
        i += 1;
    }
    proof {
        assert(views(refs@).take(refs@.len() as int) =~= views(refs@));
    }
    commands
}

/// Deletes, in one transaction, those of the record refs (active and
/// archived), the verification ref and (for a non-empty name) the public ref
/// of staircase `id` that exist (see [`staircase_refs`] and
/// [`delete_commands`]); nothing is run when none exists.
pub fn delete_staircase_refs(repo: &GitRepo, id: &str, name: &str) -> (r: Result<()>) {
    let refs = staircase_refs(id, name);
    let mut current: Vec<Option<String>> = Vec::new();
    let mut i: usize = 0;
    while i < refs.len()
        invariant
            i <= refs@.len(),
            current@.len() == i,
        decreases refs@.len() - i,
    {
        current.push(repo.resolve_ref_opt(refs[i].as_str())?);
        i += 1;
    }
    let commands = delete_commands(&refs, &current);
    if commands.len() > 0 {
        repo.update_refs_transaction(&commands)?;
    }
    Ok(())
}

/// Commits `part` as `filename` (canonical JSON and a newline) on top of
/// `refname` and moves the ref to the new commit; returns the commit.
pub fn commit_json_data(repo: &GitRepo, refname: &str, part: &RecordPart, filename: &str, message: &str) -> (r: Result<String>) {
    let json = repo.host.encode_part(part)?;
    let content = cat(json.as_str(), "\n");
    let blob_oid = repo.write_blob(content.as_str())?;
    let mut entries: Vec<TreeEntry> = Vec::new();
    entries.push(TreeEntry::blob(blob_oid.as_str(), filename));
    let tree_oid = repo.write_tree(entries.as_slice())?;
    let parent = repo.resolve_ref_opt(refname)?;
    let commit_oid = match &parent {
        Some(p) => {
            let parents = [p.as_str()];
            repo.commit_tree(tree_oid.as_str(), &parents, message)?
        },
        None => {
            let parents: [&str; 0] = [];
            repo.commit_tree(tree_oid.as_str(), &parents, message)?
        },
    };
    let old = match &parent {
        Some(p) => Some(p.as_str()),
        None => None,
    };
    repo.update_ref(refname, commit_oid.as_str(), old)?;
    Ok(commit_oid)
}

/// The document `filename` of the commit that `target` names, read as
/// `kind`; none when `target` names nothing or the commit has no such file.
pub fn read_json_data_opt(repo: &GitRepo, target: &str, filename: &str, kind: PartKind) -> (r: Result<Option<RecordPart>>) {
    let oid = match repo.resolve_ref_opt(target)? {
        Some(o) => o,
        None => return Ok(None),
    };
    let tree_oid = repo.get_tree_id(oid.as_str())?;
    let entries = repo.ls_tree(tree_oid.as_str())?;
    let mut i: usize = 0;
    while i < entries.len()
        invariant
            i <= entries@.len(),
        decreases entries@.len() - i,
    {
        if str_eq(entries[i].name.as_str(), filename) {
            let content = repo.cat_file(entries[i].oid.as_str())?;
            let part = repo.host.decode_part(kind, content.as_str())?;
            return Ok(Some(part));
        }
        i += 1;
    }
    Ok(None)
}

/// The structural keys of the archived staircases: each archived record's
/// manifest names the key it was archived under, or else the key is computed
/// from its integration target and steps. Records that cannot be read, or
/// whose key cannot be computed, are skipped.
pub fn list_archived_structural_keys(repo: &GitRepo) -> (r: Result<Vec<String>>)
    ensures
        r is Ok,
        r matches Ok(keys) ==> forall|i: int, j: int| 0 <= i < j < keys@.len() ==> keys@[i]@ != keys@[j]@,
{
    let mut keys: Vec<String> = Vec::new();
    let lines = match repo.for_each_ref(ARCHIVE_PREFIX, "%(refname)", None) {
        Ok(l) => l,
        Err(_) => return Ok(keys),
    };
    let mut i: usize = 0;
    while i < lines.len()
        invariant
            i <= lines@.len(),
            forall|a: int, b: int| 0 <= a < b < keys@.len() ==> keys@[a]@ != keys@[b]@,
        decreases lines@.len() - i,
    {
        let refname = trim_str(lines[i].as_str());
        if ends_with(refname.as_str(), "/record") {
            match read_record(repo, refname.as_str()) {
                Ok(rec) => {
                    match &rec.archive_manifest {
                        Some(manifest) => {
                            let key: Option<String> = match &manifest.originating_structural_key {
                                Some(k) => Some(k.clone()),
                                None => match repo.resolve_commit(rec.metadata.target.as_str()) {
                                    Ok(integration) => match crate::staircase::discovery::compute_implicit_id(
                                        repo,
                                        integration.as_str(),
                                        rec.metadata.steps.as_slice(),
                                    ) {
                                        Ok(k) => Some(k),
                                        Err(_) => None,
                                    },
                                    Err(_) => None,
                                },
                            };
                            match key {
                                Some(k) => {
                                    if !contains_text(&keys, k.as_str()) {
                                        let ghost before = keys@;
                                        keys.push(k);
                                        proof {
                                            assert forall|a: int, b: int| 0 <= a < b < keys@.len() implies keys@[a]@ != keys@[b]@ by {
                                                if b == before.len() {
                                                    assert(keys@[a] == before[a]);
                                                } else {
                                                    assert(keys@[a] == before[a] && keys@[b] == before[b]);
                                                }
                                            }
                                        }
                                    }
                                },
                                None => {},
                            }
                        },
                        None => {},
                    }
                },
                Err(_) => {},
            }
        }
        i += 1;
    }
    Ok(keys)
}

} // verus!
