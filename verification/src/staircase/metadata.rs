//! Descriptive metadata of staircases and steps: titles, descriptions,
//! labels (kept sorted and unique) and links, stored in the record.

use vstd::prelude::*;
use crate::collections::StringMap;
use crate::error::{Result, StaircaseError};
use crate::git::repo::GitRepo;
use crate::model::{
    LifecycleState, StaircaseLink, StaircaseMetadata, StaircaseRecord, StaircaseUserMetadata, StepMetadata,
};
use crate::monorepo::shadow::timestamp_iso8601;
use crate::staircase::persistence::record::{read_record, spec_step_key, step_key, write_record};
use crate::staircase::refs::StaircaseRefs;
use crate::staircase::resolved::ResolvedSelector;
use crate::text::{lemma_seq_lt_asymmetric, lemma_seq_lt_irreflexive, lemma_seq_lt_total, lemma_seq_lt_transitive,
    owned, parse_usize, seq_lt, spec_parse_usize, str_eq, str_lt, views};

verus! {

/// Whether `s` is in strictly increasing order.
pub open spec fn strictly_sorted(s: Seq<Seq<char>>) -> bool {
    forall|i: int, j: int| 0 <= i < j < s.len() ==> seq_lt(#[trigger] s[i], #[trigger] s[j])
}

proof fn lemma_push_contains(s: Seq<Seq<char>>, y: Seq<char>, x: Seq<char>)
    ensures
        s.push(y).contains(x) <==> (s.contains(x) || x == y),
{
    if s.contains(x) {
        let k = choose|k: int| 0 <= k < s.len() && s[k] == x;
        assert(s.push(y)[k] == x);
    }
    if x == y {
        assert(s.push(y)[s.len() as int] == x);
    }
    if s.push(y).contains(x) {
        let k = choose|k: int| 0 <= k < s.push(y).len() && s.push(y)[k] == x;
        if k < s.len() {
            assert(s[k] == x);
        }
    }
}

proof fn lemma_insert_contains(s: Seq<Seq<char>>, p: int, y: Seq<char>, x: Seq<char>)
    requires
        0 <= p <= s.len(),
    ensures
        (s.take(p).push(y) + s.skip(p)).contains(x) <==> (s.contains(x) || x == y),
{
    let t = s.take(p).push(y) + s.skip(p);
    if s.contains(x) {
        let k = choose|k: int| 0 <= k < s.len() && s[k] == x;
        if k < p {
            assert(t[k] == x);
        } else {
            assert(t[k + 1] == x);
        }
    }
    if x == y {
        assert(t[p] == x);
    }
    if t.contains(x) {
        let k = choose|k: int| 0 <= k < t.len() && t[k] == x;
        if k < p {
            assert(s[k] == x);
        } else if k > p {
            assert(s[k - 1] == x);
        }
    }
}

/// Labels as they are stored: sorted and each once, the same set as given.
pub fn canonical_labels(labels: Vec<String>) -> (r: Vec<String>)
    ensures
        strictly_sorted(views(r@)),
        forall|x: Seq<char>| views(r@).contains(x) <==> views(labels@).contains(x),
{
    let mut out: Vec<String> = Vec::new();
    let mut i: usize = 0;
    while i < labels.len()
        invariant
            i <= labels@.len(),
            strictly_sorted(views(out@)),
            forall|x: Seq<char>| views(out@).contains(x) <==> views(labels@).take(i as int).contains(x),
        decreases labels@.len() - i,
    {
        let item = labels[i].clone();
        let mut p: usize = 0;
        while p < out.len() && str_lt(out[p].as_str(), item.as_str())
            invariant
                p <= out@.len(),
                forall|k: int| 0 <= k < p ==> seq_lt(#[trigger] out@[k]@, item@),
            decreases out@.len() - p,
        {
            p += 1;
        }
        let ghost before = views(out@);
        proof {
            assert(views(labels@).take(i + 1) =~= views(labels@).take(i as int).push(item@));
        }
        if p < out.len() && str_eq(out[p].as_str(), item.as_str()) {
            proof {
                assert forall|x: Seq<char>| views(out@).contains(x) <==> views(labels@).take(i + 1).contains(x) by {
                    lemma_push_contains(views(labels@).take(i as int), item@, x);
                    if x == item@ {
                        assert(views(out@)[p as int] == x);
                    }
                }
            }
        } else {
            out.insert(p, item);
            proof {
                let after = views(out@);
                assert(after =~= before.take(p as int).push(item@) + before.skip(p as int));
                assert forall|a: int, b: int| 0 <= a < b < after.len() implies seq_lt(#[trigger] after[a], #[trigger] after[b]) by {
                    if b == p {
                        assert(seq_lt(before[a], item@));
                    } else if a == p {
                        assert(before[b - 1] == after[b]);
                        if p < before.len() {
                            lemma_seq_lt_total(item@, before[p as int]);
                            assert(before[p as int] != item@);
                            if seq_lt(before[p as int], item@) {
                                assert(false);
                            }
                            if b - 1 > p {
                                lemma_seq_lt_transitive(item@, before[p as int], before[b - 1]);
                            }
                        }
                    } else if a < p && b > p {
                        assert(after[b] == before[b - 1]);
                        assert(seq_lt(before[a], before[b - 1]));
                    } else if a > p {
                        assert(after[a] == before[a - 1] && after[b] == before[b - 1]);
                    }
                }
                assert forall|x: Seq<char>| after.contains(x) <==> views(labels@).take(i + 1).contains(x) by {
                    lemma_push_contains(views(labels@).take(i as int), item@, x);
                    lemma_insert_contains(before, p as int, item@, x);
                }
            }
        }
        i += 1;
    }
    proof {
        assert(views(labels@).take(labels@.len() as int) =~= views(labels@));
    }
    out
}

/// The key under which a step's metadata is stored, for a selector of the
/// step: a 1-based ordinal, else a step id or name; the step's id (its name
/// without one). A selector that names no step is taken as the key itself.
pub open spec fn spec_resolve_step_key(steps: Seq<crate::model::Step>, selector: Seq<char>) -> Seq<char> {
    let ordinal = spec_parse_usize(selector);
    if ordinal is Ok && 1 <= ordinal->Ok_0 <= steps.len() {
        spec_step_key(steps[ordinal->Ok_0 - 1])
    } else if exists|i: int| 0 <= i < steps.len() && ((#[trigger] steps[i]).id@ == selector || steps[i].name@ == selector) {
        spec_step_key(steps[choose|i: int| 0 <= i < steps.len() && ((#[trigger] steps[i]).id@ == selector
            || steps[i].name@ == selector) && forall|j: int| 0 <= j < i ==> !((#[trigger] steps[j]).id@ == selector
            || steps[j].name@ == selector)])
    } else {
        selector
    }
}

/// The key of a step's metadata (see `spec_resolve_step_key`).
pub fn resolve_step_key(meta: &StaircaseMetadata, selector: &str) -> (r: String)
    ensures
        r@ == spec_resolve_step_key(meta.steps@, selector@),
{
    match parse_usize(selector) {
        Ok(ordinal) => {
            if ordinal >= 1 && ordinal <= meta.steps.len() {
                return owned(step_key(&meta.steps[ordinal - 1]));
            }
        },
        Err(_) => {},
    }
    let ghost steps = meta.steps@;
    let mut i: usize = 0;
    while i < meta.steps.len()
        invariant
            steps == meta.steps@,
            i <= steps.len(),
            !(spec_parse_usize(selector@) is Ok && 1 <= spec_parse_usize(selector@)->Ok_0 <= steps.len()),
            forall|j: int| 0 <= j < i ==> !((#[trigger] steps[j]).id@ == selector@ || steps[j].name@ == selector@),
        decreases steps.len() - i,
    {
        if str_eq(meta.steps[i].id.as_str(), selector) || str_eq(meta.steps[i].name.as_str(), selector) {
            proof {
                let p = |k: int| 0 <= k < steps.len() && ((steps[k]).id@ == selector@ || steps[k].name@ == selector@)
                    && forall|j: int| 0 <= j < k ==> !((#[trigger] steps[j]).id@ == selector@ || steps[j].name@ == selector@);
                assert(p(i as int));
                let c = choose|k: int| 0 <= k < steps.len() && ((#[trigger] steps[k]).id@ == selector@
                    || steps[k].name@ == selector@) && forall|j: int| 0 <= j < k ==> !((#[trigger] steps[j]).id@ == selector@
                    || steps[j].name@ == selector@);
                assert(c == i);
            }
            return owned(step_key(&meta.steps[i]));
        }
        i += 1;
    }
    owned(selector)
}

/// The ref of the selected staircase's record: archived or active.
fn selected_record_ref(selector: &ResolvedSelector) -> (r: String)
    requires
        !(selector.staircase is ImplicitFamily),
    ensures
        crate::staircase::local::is_archived(crate::staircase::resolved::linear_metadata(selector.staircase)) ==> r@
            == "refs/staircase-archive/"@ + crate::staircase::resolved::linear_metadata(selector.staircase).id@ + "/record"@,
        !crate::staircase::local::is_archived(crate::staircase::resolved::linear_metadata(selector.staircase)) ==> r@
            == "refs/staircase-state/"@ + crate::staircase::resolved::linear_metadata(selector.staircase).id@ + "/record"@,
{
    let meta = selector.metadata();
    let archived = match &meta.lifecycle {
        Some(l) => l.state == LifecycleState::Archived,
        None => false,
    };
    if archived {
        StaircaseRefs::archive_record(meta.id.as_str())
    } else {
        StaircaseRefs::state_record(meta.id.as_str())
    }
}

/// The selected staircase's record (archived or active).
fn read_selected_record(repo: &GitRepo, selector: &ResolvedSelector) -> (r: Result<StaircaseRecord>)
    requires
        !(selector.staircase is ImplicitFamily),
{
    read_record(repo, selected_record_ref(selector).as_str())
}

/// The descriptive metadata of the selected staircase.
pub fn get_user_metadata(repo: &GitRepo, selector: &ResolvedSelector) -> (r: Result<StaircaseUserMetadata>)
    requires
        !(selector.staircase is ImplicitFamily),
{
    Ok(read_selected_record(repo, selector)?.user_metadata)
}

/// The descriptive metadata of the selected staircase and its record's id.
pub fn get_user_metadata_snapshot(repo: &GitRepo, selector: &ResolvedSelector) -> (r: Result<(StaircaseUserMetadata, String)>)
    requires
        !(selector.staircase is ImplicitFamily),
{
    let record = read_selected_record(repo, selector)?;
    Ok((record.user_metadata, record.record_oid))
}

/// Replaces the descriptive metadata of the selected staircase, on its
/// current record.
pub fn update_user_metadata(repo: &GitRepo, selector: &ResolvedSelector, new_user_meta: StaircaseUserMetadata) -> (r: Result<StaircaseRecord>)
    requires
        !(selector.staircase is ImplicitFamily),
    ensures
        r matches Ok(rec) ==> stored_update(rec.user_metadata, new_user_meta),
{
    let record = read_selected_record(repo, selector)?;
    update_user_metadata_expected(repo, selector, new_user_meta, record.record_oid.as_str())
}

/// `stored` is how `given` is stored by a metadata update: the same
/// descriptive fields, but the labels sorted and each once, and an update
/// time set.
pub open spec fn stored_update(stored: StaircaseUserMetadata, given: StaircaseUserMetadata) -> bool {
    &&& stored.title == given.title && stored.description == given.description
    &&& stored.links@ == given.links@
    &&& stored.created_at == given.created_at && stored.created_by == given.created_by
    &&& stored.updated_by == given.updated_by && stored.updated_at is Some
    &&& strictly_sorted(views(stored.labels@))
    &&& forall|x: Seq<char>| views(stored.labels@).contains(x) <==> views(given.labels@).contains(x)
}

/// Replaces the descriptive metadata of the selected staircase on record
/// `expected_record_oid`, which must be a record of the same lineage; the
/// labels are stored sorted and unique, with the time of the update.
pub fn update_user_metadata_expected(
    repo: &GitRepo,
    selector: &ResolvedSelector,
    new_user_meta: StaircaseUserMetadata,
    expected_record_oid: &str,
) -> (r: Result<StaircaseRecord>)
    requires
        !(selector.staircase is ImplicitFamily),
    ensures
        r matches Ok(rec) ==> stored_update(rec.user_metadata, new_user_meta),
{
    let meta = selector.metadata();
    let mut record = read_record(repo, expected_record_oid)?;
    if !str_eq(record.metadata.id.as_str(), meta.id.as_str()) {
        return Err(StaircaseError::ConcurrentRecordUpdate {
            reference: StaircaseRefs::state_record(meta.id.as_str()),
            expected: owned(expected_record_oid),
            actual: record.record_oid,
        });
    }
    record.metadata.name = meta.name.clone();
    let mut user_meta = new_user_meta;
    let mut labels: Vec<String> = Vec::new();
    std::mem::swap(&mut labels, &mut user_meta.labels);
    user_meta.labels = canonical_labels(labels);
    user_meta.updated_at = Some(timestamp_iso8601());
    write_record(
        repo,
        &record.metadata,
        &user_meta,
        &record.lifecycle,
        record.archive_manifest.as_ref(),
        Some(expected_record_oid),
        true,
    )
}

/// Sets the title (and the creation time, the first time).
pub fn set_title(repo: &GitRepo, selector: &ResolvedSelector, title: &str) -> (r: Result<StaircaseRecord>)
    requires
        !(selector.staircase is ImplicitFamily),
    ensures
        r matches Ok(rec) ==> (rec.user_metadata.title matches Some(t) && t@ == title@) && rec.user_metadata.created_at is Some,
{
    let mut user_meta = get_user_metadata(repo, selector)?;
    if user_meta.created_at.is_none() {
        user_meta.created_at = Some(timestamp_iso8601());
    }
    user_meta.title = Some(owned(title));
    update_user_metadata(repo, selector, user_meta)
}

/// Sets the description (and the creation time, the first time).
pub fn set_description(repo: &GitRepo, selector: &ResolvedSelector, description: &str) -> (r: Result<StaircaseRecord>)
    requires
        !(selector.staircase is ImplicitFamily),
    ensures
        r matches Ok(rec) ==> (rec.user_metadata.description matches Some(d) && d@ == description@)
            && rec.user_metadata.created_at is Some,
{
    let mut user_meta = get_user_metadata(repo, selector)?;
    if user_meta.created_at.is_none() {
        user_meta.created_at = Some(timestamp_iso8601());
    }
    user_meta.description = Some(owned(description));
    update_user_metadata(repo, selector, user_meta)
}

/// `labels` with `label` added at the end unless it is there already.
pub fn with_label(labels: Vec<String>, label: &str) -> (r: Vec<String>)
    ensures
        views(labels@).contains(label@) ==> r@ == labels@,
        !views(labels@).contains(label@) ==> views(r@) == views(labels@).push(label@),
{
    if crate::staircase::archive::contains_text(&labels, label) {
        labels
    } else {
        let mut out = labels;
        let l = owned(label);
        proof {
            crate::text::lemma_views_push(out@, l);
        }
        out.push(l);
        out
    }
}

/// `labels` without any `label`.
pub fn without_label(labels: &Vec<String>, label: &str) -> (r: Vec<String>)
    ensures
        views(r@) == views(labels@).filter(|l: Seq<char>| l != label@),
{
    let ghost keep = |l: Seq<char>| l != label@;
    let mut out: Vec<String> = Vec::new();
    let mut i: usize = 0;
    while i < labels.len()
        invariant
            keep == (|l: Seq<char>| l != label@),
            i <= labels@.len(),
            views(out@) == views(labels@).take(i as int).filter(keep),
        decreases labels@.len() - i,
    {
        proof {
            assert(views(labels@).take(i + 1).drop_last() =~= views(labels@).take(i as int));
            assert(views(labels@).take(i + 1).last() == labels@[i as int]@);
            reveal(Seq::filter);
        }
        if !str_eq(labels[i].as_str(), label) {
            proof {
                crate::text::lemma_views_push(out@, labels@[i as int]);
            }
            out.push(labels[i].clone());
        }
        i += 1;
    }
    proof {
        assert(views(labels@).take(labels@.len() as int) =~= views(labels@));
    }
    out
}

/// Adds a label (kept once).
pub fn add_label(repo: &GitRepo, selector: &ResolvedSelector, label: &str) -> (r: Result<StaircaseRecord>)
    requires
        !(selector.staircase is ImplicitFamily),
    ensures
        r matches Ok(rec) ==> views(rec.user_metadata.labels@).contains(label@) && strictly_sorted(views(rec.user_metadata.labels@)),
{
    let mut user_meta = get_user_metadata(repo, selector)?;
    let mut labels: Vec<String> = Vec::new();
    std::mem::swap(&mut labels, &mut user_meta.labels);
    let ghost before = views(labels@);
    user_meta.labels = with_label(labels, label);
    proof {
        if !before.contains(label@) {
            assert(views(user_meta.labels@)[before.len() as int] == label@);
        }
    }
    update_user_metadata(repo, selector, user_meta)
}

/// Removes a label.
pub fn remove_label(repo: &GitRepo, selector: &ResolvedSelector, label: &str) -> (r: Result<StaircaseRecord>)
    requires
        !(selector.staircase is ImplicitFamily),
{
    let mut user_meta = get_user_metadata(repo, selector)?;
    user_meta.labels = without_label(&user_meta.labels, label);
    update_user_metadata(repo, selector, user_meta)
}

/// `links` without those with `link`'s id, then `link`.
pub fn with_link(links: Vec<StaircaseLink>, link: StaircaseLink) -> (r: Vec<StaircaseLink>)
    ensures
        r@ == links@.filter(|l: StaircaseLink| l.id@ != link.id@).push(link),
{
    let ghost id = link.id@;
    let ghost keep = |l: StaircaseLink| l.id@ != id;
    let ghost all = links@;
    let mut rest = links;
    let mut kept: Vec<StaircaseLink> = Vec::new();
    while rest.len() > 0
        invariant
            id == link.id@,
            keep == (|l: StaircaseLink| l.id@ != id),
            rest@.len() <= all.len(),
            all == all.take(all.len() - rest@.len()) + rest@,
            kept@ == all.take(all.len() - rest@.len()).filter(keep),
        decreases rest@.len(),
    {
        let ghost done = all.take(all.len() - rest@.len());
        let l = rest.remove(0);
        proof {
            let next = all.take(all.len() - rest@.len());
            assert(next.drop_last() =~= done);
            assert(next.last() == l);
            reveal(Seq::filter);
            assert(all =~= next + rest@);
        }
        if !str_eq(l.id.as_str(), link.id.as_str()) {
            kept.push(l);
        }
    }
    proof {
        assert(all.take(all.len() as int) =~= all);
        assert(keep =~= (|l: StaircaseLink| l.id@ != link.id@));
    }
    kept.push(link);
    kept
}

/// Adds a link, replacing any with the same id.
pub fn add_link(repo: &GitRepo, selector: &ResolvedSelector, link: StaircaseLink) -> (r: Result<StaircaseRecord>)
    requires
        !(selector.staircase is ImplicitFamily),
    ensures
        r matches Ok(rec) ==> {
            let links = rec.user_metadata.links@;
            &&& links.len() > 0 && links.last() == link
            &&& forall|i: int| 0 <= i < links.len() - 1 ==> (#[trigger] links[i]).id@ != link.id@
        },
{
    let mut user_meta = get_user_metadata(repo, selector)?;
    let mut links: Vec<StaircaseLink> = Vec::new();
    std::mem::swap(&mut links, &mut user_meta.links);
    user_meta.links = with_link(links, link);
    update_user_metadata(repo, selector, user_meta)
}

/// The stored metadata of a step, or empty metadata.
fn step_metadata_in(user_meta: &StaircaseUserMetadata, key: &str) -> (r: StepMetadata)
    ensures
        user_meta.step_metadata.view().contains_key(key@) ==> ({
            let m = user_meta.step_metadata.view()[key@];
            r.title == m.title && r.description == m.description && r.labels@ == m.labels@ && r.links@ == m.links@
        }),
        !user_meta.step_metadata.view().contains_key(key@) ==> r.title is None && r.description is None
            && r.labels@.len() == 0 && r.links@.len() == 0,
{
    match user_meta.step_metadata.get(key) {
        Some(m) => m.copy(),
        None => StepMetadata { title: None, description: None, labels: Vec::new(), links: Vec::new() },
    }
}

/// The metadata of the step that `step_key` selects (see `resolve_step_key`).
pub fn get_step_metadata(repo: &GitRepo, selector: &ResolvedSelector, step_key: &str) -> (r: Result<StepMetadata>)
    requires
        !(selector.staircase is ImplicitFamily),
{
    let user_meta = get_user_metadata(repo, selector)?;
    let key = resolve_step_key(selector.metadata(), step_key);
    Ok(step_metadata_in(&user_meta, key.as_str()))
}

/// The metadata of the selected step and the id of the record it is read from.
pub fn get_step_metadata_snapshot(repo: &GitRepo, selector: &ResolvedSelector, step_key: &str) -> (r: Result<(StepMetadata, String)>)
    requires
        !(selector.staircase is ImplicitFamily),
{
    let (user_meta, record_oid) = get_user_metadata_snapshot(repo, selector)?;
    let key = resolve_step_key(selector.metadata(), step_key);
    Ok((step_metadata_in(&user_meta, key.as_str()), record_oid))
}

/// Sets the metadata of the selected step on record `expected_record_oid`,
/// its labels sorted and unique.
pub fn update_step_metadata_expected(
    repo: &GitRepo,
    selector: &ResolvedSelector,
    step_key: &str,
    step_meta: StepMetadata,
    expected_record_oid: &str,
) -> (r: Result<StaircaseRecord>)
    requires
        !(selector.staircase is ImplicitFamily),
{
    let record = read_record(repo, expected_record_oid)?;
    let mut user_meta = record.user_metadata;
    let key = resolve_step_key(selector.metadata(), step_key);
    let mut step_meta = step_meta;
    let mut labels: Vec<String> = Vec::new();
    std::mem::swap(&mut labels, &mut step_meta.labels);
    step_meta.labels = canonical_labels(labels);
    user_meta.step_metadata.insert(key, step_meta);
    update_user_metadata_expected(repo, selector, user_meta, expected_record_oid)
}

/// Sets the metadata of the selected step, its labels sorted and unique.
pub fn update_step_metadata(repo: &GitRepo, selector: &ResolvedSelector, step_key: &str, step_meta: StepMetadata) -> (r: Result<StaircaseRecord>)
    requires
        !(selector.staircase is ImplicitFamily),
{
    let mut user_meta = get_user_metadata(repo, selector)?;
    let key = resolve_step_key(selector.metadata(), step_key);
    let mut step_meta = step_meta;
    let mut labels: Vec<String> = Vec::new();
    std::mem::swap(&mut labels, &mut step_meta.labels);
    step_meta.labels = canonical_labels(labels);
    user_meta.step_metadata.insert(key, step_meta);
    update_user_metadata(repo, selector, user_meta)
}


/// Two label lists in stored form (sorted, each once) that hold the same
/// labels are the same list: the stored form of a set of labels is unique,
/// so storing labels again changes nothing.
pub proof fn law_stored_labels_unique(a: Seq<Seq<char>>, b: Seq<Seq<char>>)
    requires
        strictly_sorted(a),
        strictly_sorted(b),
        forall|x: Seq<char>| a.contains(x) <==> b.contains(x),
    ensures
        a == b,
    decreases a.len() + b.len(),
{
    if a.len() == 0 || b.len() == 0 {
        if a.len() > 0 {
            assert(a.contains(a[0]));
        }
        if b.len() > 0 {
            assert(b.contains(b[0]));
        }
        assert(a =~= b);
    } else {
        let x = a[0];
        let y = b[0];
        assert(a.contains(x));
        assert(b.contains(y));
        let j = choose|j: int| 0 <= j < b.len() && b[j] == x;
        let k = choose|k: int| 0 <= k < a.len() && a[k] == y;
        assert(j == 0) by {
            if j > 0 {
                if k > 0 {
                    assert(seq_lt(y, x));
                    assert(seq_lt(x, y));
                    lemma_seq_lt_asymmetric(x, y);
                } else {
                    assert(y == x);
                    lemma_seq_lt_irreflexive(x);
                }
            }
        }
        assert(x == y);
        let a1 = a.drop_first();
        let b1 = b.drop_first();
        assert forall|z: Seq<char>| a1.contains(z) <==> b1.contains(z) by {
            if a1.contains(z) {
                let i = choose|i: int| 0 <= i < a1.len() && a1[i] == z;
                assert(a[i + 1] == z);
                assert(seq_lt(a[0], a[i + 1]));
                assert(b.contains(z));
                let m = choose|m: int| 0 <= m < b.len() && b[m] == z;
                if m == 0 {
                    lemma_seq_lt_irreflexive(z);
                }
                assert(b1[m - 1] == z);
            }
            if b1.contains(z) {
                let i = choose|i: int| 0 <= i < b1.len() && b1[i] == z;
                assert(b[i + 1] == z);
                assert(seq_lt(b[0], b[i + 1]));
                assert(a.contains(z));
                let m = choose|m: int| 0 <= m < a.len() && a[m] == z;
                if m == 0 {
                    lemma_seq_lt_irreflexive(z);
                }
                assert(a1[m - 1] == z);
            }
        }
        assert(strictly_sorted(a1)) by {
            assert forall|i: int, k: int| 0 <= i < k < a1.len() implies seq_lt(#[trigger] a1[i], #[trigger] a1[k]) by {
                assert(seq_lt(a[i + 1], a[k + 1]));
            }
        }
        assert(strictly_sorted(b1)) by {
            assert forall|i: int, k: int| 0 <= i < k < b1.len() implies seq_lt(#[trigger] b1[i], #[trigger] b1[k]) by {
                assert(seq_lt(b[i + 1], b[k + 1]));
            }
        }
        law_stored_labels_unique(a1, b1);
        assert(a =~= seq![x] + a1);
        assert(b =~= seq![y] + b1);
    }
}

} // verus!
