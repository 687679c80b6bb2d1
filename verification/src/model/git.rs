use vstd::prelude::*;

verus! {

/// A branch: its full refname, the commit it points at and its upstream, if any.
#[derive(Debug, Clone, PartialEq, Eq)]
pub struct BranchInfo {
    pub refname: String,
    pub oid: String,
    pub upstream: Option<String>,
}

impl BranchInfo {
    /// A copy equal to `self`.
    pub fn copy(&self) -> (r: Self)
        ensures
            r == *self,
    {
        BranchInfo {
            refname: self.refname.clone(),
            oid: self.oid.clone(),
            upstream: match &self.upstream {
                Some(u) => Some(u.clone()),
                None => None,
            },
        }
    }
}

} // verus!
