use vstd::prelude::*;
use super::lifecycle::StaircaseLifecycle;
use crate::collections::StringMap;

verus! {

/// One step of a staircase: a stable id, a display name, its cut (a commit
/// OID) and an optional local branch name (without `refs/heads/`).
#[derive(Debug, Clone, PartialEq, Eq)]
pub struct Step {
    pub id: String,
    pub name: String,
    pub cut: String,
    pub branch: Option<String>,
}

impl Step {
    /// A copy equal to `self`.
    pub fn copy(&self) -> (r: Self)
        ensures
            r == *self,
    {
        Step {
            id: self.id.clone(),
            name: self.name.clone(),
            cut: self.cut.clone(),
            branch: match &self.branch {
                Some(b) => Some(b.clone()),
                None => None,
            },
        }
    }
}

/// How a staircase is built and tested.
#[derive(Debug, Clone, PartialEq, Eq)]
pub struct VerificationPolicy {
    pub build_command: Option<String>,
    pub test_command: Option<String>,
    pub verify_each_prefix: bool,
}

/// How a staircase may be landed.
#[derive(Debug, Clone, Copy, PartialEq, Eq, Structural)]
pub enum LandingPolicy {
    AggregateOnly,
    Stepwise,
    Either,
}

/// The structure of a staircase: identity, name, integration target and steps.
#[derive(Debug, Clone, PartialEq, Eq)]
pub struct StaircaseMetadata {
    pub landing_policy: Option<LandingPolicy>,
    pub id: String,
    pub name: String,
    pub target: String,
    pub steps: Vec<Step>,
    pub verification_policy: Option<VerificationPolicy>,
    pub primary_branch_layout: Option<String>,
    pub branch_layout_base: Option<String>,
    pub user_metadata: Option<StaircaseUserMetadata>,
    pub lifecycle: Option<StaircaseLifecycle>,
}

/// A step of a branching family of candidate steps.
#[derive(Debug, Clone, PartialEq, Eq)]
pub struct FamilyStep {
    pub name: String,
    pub cut: String,
    pub branch: Option<String>,
    pub children: Vec<String>,
}

/// A branching set of steps that discovery could not order linearly.
#[derive(Debug, Clone, PartialEq, Eq)]
pub struct StaircaseFamily {
    pub id: String,
    pub name: String,
    pub target: String,
    pub steps: StringMap<FamilyStep>,
    pub roots: Vec<String>,
    pub verification_policy: Option<VerificationPolicy>,
}

/// What discovery found: a linear staircase or an ambiguous family.
#[derive(Debug, Clone, PartialEq, Eq)]
pub enum Discovery {
    Linear(StaircaseMetadata),
    Ambiguous(StaircaseFamily),
}

/// A link from a staircase or a step to an outside resource.
#[derive(Debug, Clone, PartialEq, Eq, Default)]
pub struct StaircaseLink {
    pub id: String,
    pub relationship: String,
    pub url: String,
    pub label: Option<String>,
    pub description: Option<String>,
}

/// Descriptive metadata of one step.
#[derive(Debug, Clone, PartialEq, Eq, Default)]
pub struct StepMetadata {
    pub title: Option<String>,
    pub description: Option<String>,
    pub labels: Vec<String>,
    pub links: Vec<StaircaseLink>,
}

/// A copy of an optional text.
pub(crate) fn copy_opt(o: &Option<String>) -> (r: Option<String>)
    ensures
        r == *o,
{
    match o {
        Some(t) => Some(t.clone()),
        None => None,
    }
}

impl StaircaseLink {
    /// A copy equal to `self`.
    pub fn copy(&self) -> (r: Self)
        ensures
            r == *self,
    {
        StaircaseLink {
            id: self.id.clone(),
            relationship: self.relationship.clone(),
            url: self.url.clone(),
            label: copy_opt(&self.label),
            description: copy_opt(&self.description),
        }
    }
}

impl StepMetadata {
    /// A copy equal to `self`.
    pub fn copy(&self) -> (r: Self)
        ensures
            r.title == self.title && r.description == self.description && r.labels@ == self.labels@
                && r.links@ == self.links@,
    {
        let mut labels: Vec<String> = Vec::new();
        let mut i: usize = 0;
        while i < self.labels.len()
            invariant
                i <= self.labels@.len(),
                labels@ == self.labels@.take(i as int),
            decreases self.labels@.len() - i,
        {
            labels.push(self.labels[i].clone());
            proof {
                assert(labels@ =~= self.labels@.take(i + 1));
            }
            i += 1;
        }
        let mut links: Vec<StaircaseLink> = Vec::new();
        let mut k: usize = 0;
        while k < self.links.len()
            invariant
                k <= self.links@.len(),
                links@ == self.links@.take(k as int),
            decreases self.links@.len() - k,
        {
            links.push(self.links[k].copy());
            proof {
                assert(links@ =~= self.links@.take(k + 1));
            }
            k += 1;
        }
        proof {
            assert(labels@ =~= self.labels@);
            assert(links@ =~= self.links@);
        }
        StepMetadata { title: copy_opt(&self.title), description: copy_opt(&self.description), labels, links }
    }
}

/// Descriptive metadata of a staircase; `extensions` maps names to JSON text.
#[derive(Debug, Clone, PartialEq, Eq)]
pub struct StaircaseUserMetadata {
    pub title: Option<String>,
    pub description: Option<String>,
    pub labels: Vec<String>,
    pub links: Vec<StaircaseLink>,
    pub step_metadata: StringMap<StepMetadata>,
    pub extensions: StringMap<String>,
    pub created_at: Option<String>,
    pub created_by: Option<String>,
    pub updated_at: Option<String>,
    pub updated_by: Option<String>,
}

impl Default for StaircaseUserMetadata {
    /// Metadata with nothing set.
    fn default() -> (m: Self)
        ensures
            m.title is None,
            m.description is None,
            m.labels@.len() == 0,
            m.links@.len() == 0,
            m.step_metadata.view().len() == 0,
            m.extensions.view().len() == 0,
            m.created_at is None,
            m.created_by is None,
            m.updated_at is None,
            m.updated_by is None,
    {
        StaircaseUserMetadata {
            title: None,
            description: None,
            labels: Vec::new(),
            links: Vec::new(),
            step_metadata: StringMap::new(),
            extensions: StringMap::new(),
            created_at: None,
            created_by: None,
            updated_at: None,
            updated_by: None,
        }
    }
}

} // verus!
