//! git-staircase: stacks of dependent Git branches ("staircases") recorded
//! under dedicated refs, with verified naming, parsing and planning logic.

pub mod collections;
pub mod error;
pub mod fresh;
pub mod git;
pub mod hex;
pub mod json;
pub mod json_text;
pub mod memoization;
pub mod model;
pub mod monorepo;
pub mod output;
pub mod presentation;
pub mod staircase;
pub mod text;

use vstd::prelude::*;
use crate::error::StaircaseError;
use crate::text::{cat, cat3, parse_usize, split_on, split_char, spec_parse_usize};

verus! {

/// The message for a step spec that is not `<name>:<number>`.
pub open spec fn invalid_step_spec_message(spec: Seq<char>) -> Seq<char> {
    "Invalid step spec '"@ + spec + "'. Expected format: <staircase_name>:<step_number>"@
}

/// Parses `<staircase_name>:<step_number>`: the text must hold exactly one `:`
/// and the part after it must read as a `usize`.
pub fn parse_step_spec(spec: &str) -> (r: Result<(String, usize), StaircaseError>)
    ensures
        split_char(spec@, ':').len() != 2 ==> (r matches Err(StaircaseError::Other(m))
            && m@ == invalid_step_spec_message(spec@)),
        split_char(spec@, ':').len() == 2 ==> match spec_parse_usize(split_char(spec@, ':')[1]) {
            Ok(n) => (r matches Ok((name, k)) && name@ == split_char(spec@, ':')[0] && k as nat == n),
            Err(e) => (r matches Err(StaircaseError::Other(m)) && m@ == "Failed to parse step number: "@
                + e.spec_message()),
        },
{
    let parts = split_on(spec, ':');
    proof {
        assert(parts@.len() == split_char(spec@, ':').len());
    }
    if parts.len() != 2 {
        let m = cat3("Invalid step spec '", spec, "'. Expected format: <staircase_name>:<step_number>");
        return Err(StaircaseError::Other(m));
    }
    proof {
        assert(parts@[0]@ == split_char(spec@, ':')[0]);
        assert(parts@[1]@ == split_char(spec@, ':')[1]);
    }
    match parse_usize(parts[1].as_str()) {
        Ok(n) => Ok((parts[0].clone(), n)),
        Err(e) => {
            let m = cat("Failed to parse step number: ", e.message());
            Err(StaircaseError::Other(m))
        },
    }
}

} // verus!
