//! Naming helpers used by discovery: the shared prefix of branch names and
//! the recognition of the sequential branch layout.

use vstd::prelude::*;
use crate::model::Step;
use crate::text::{cat3, str_eq, substring, to_chars, usize_to_decimal, decimal};

verus! {

/// Length of the longest common prefix of `a` and `b`.
pub open spec fn lcp(a: Seq<char>, b: Seq<char>) -> nat
    decreases a.len(),
{
    if a.len() == 0 || b.len() == 0 || a[0] != b[0] {
        0
    } else {
        1 + lcp(a.drop_first(), b.drop_first())
    }
}

/// Length of the prefix of `first` shared with every name of `rest`.
pub open spec fn shared_len(first: Seq<char>, rest: Seq<Seq<char>>) -> nat
    decreases rest.len(),
{
    if rest.len() == 0 {
        first.len()
    } else {
        let a = shared_len(first, rest.drop_last());
        let b = lcp(first, rest.last());
        if a <= b { a } else { b }
    }
}

/// Characters stripped from the end of a common prefix.
pub open spec fn is_name_separator(c: char) -> bool {
    c == '/' || c == '-' || c == '_' || c == '.' || c == ' '
}

/// `s` without trailing separators.
pub open spec fn trim_separators(s: Seq<char>) -> Seq<char>
    decreases s.len(),
{
    if s.len() > 0 && is_name_separator(s.last()) {
        trim_separators(s.drop_last())
    } else {
        s
    }
}

/// The common prefix of the names, without trailing separators, when it is not empty.
pub open spec fn spec_common_prefix(names: Seq<Seq<char>>) -> Option<Seq<char>> {
    if names.len() == 0 {
        None
    } else {
        let t = trim_separators(names[0].take(shared_len(names[0], names.drop_first()) as int));
        if t.len() == 0 {
            None
        } else {
            Some(t)
        }
    }
}

/// The branch that step `i` (counted from 1) has in the sequential layout on `base`.
pub open spec fn sequential_branch(base: Seq<char>, i: nat) -> Seq<char> {
    base + "-"@ + decimal(i)
}

/// The base of the sequential layout of `steps`: the tip step's branch `base`,
/// when every other step `i` (counted from 1) is on branch `base-i`.
pub open spec fn spec_sequential_layout(steps: Seq<Step>) -> Option<Seq<char>> {
    if steps.len() == 0 {
        None
    } else {
        match steps.last().branch {
            None => None,
            Some(base) => {
                if forall|i: int| 0 <= i < steps.len() - 1 ==> (#[trigger] steps[i].branch matches Some(b)
                    && b@ == sequential_branch(base@, (i + 1) as nat)) {
                    Some(base@)
                } else {
                    None
                }
            },
        }
    }
}

proof fn lemma_lcp_is(a: Seq<char>, b: Seq<char>, k: int)
    requires
        0 <= k <= a.len(),
        k <= b.len(),
        forall|i: int| 0 <= i < k ==> a[i] == b[i],
        k == a.len() || k == b.len() || a[k] != b[k],
    ensures
        lcp(a, b) == k,
    decreases k,
{
    if k > 0 {
        lemma_lcp_is(a.drop_first(), b.drop_first(), k - 1);
    }
}

proof fn lemma_trim_separators_take(s: Seq<char>, k: int)
    requires
        0 <= k <= s.len(),
        forall|i: int| k <= i < s.len() ==> is_name_separator(s[i]),
    ensures
        trim_separators(s) == trim_separators(s.take(k)),
    decreases s.len() - k,
{
    if k < s.len() {
        lemma_trim_separators_take(s.drop_last(), k);
        assert(s.drop_last().take(k) =~= s.take(k));
    } else {
        assert(s.take(k) =~= s);
    }
}

/// Length of the longest common prefix of two character vectors.
fn common_len(a: &Vec<char>, b: &Vec<char>) -> (n: usize)
    ensures
        n == lcp(a@, b@),
{
    let mut j: usize = 0;
    while j < a.len() && j < b.len() && a[j] == b[j]
        invariant
            j <= a.len(),
            j <= b.len(),
            forall|i: int| 0 <= i < j ==> a@[i] == b@[i],
        decreases a.len() - j,
    {
        j += 1;
    }
    proof {
        lemma_lcp_is(a@, b@, j as int);
    }
    j
}

/// The common prefix of `names`, with trailing `/`, `-`, `_`, `.` and spaces
/// removed; none when there are no names or nothing is left.
pub fn common_prefix(names: &[&str]) -> (r: Option<String>)
    ensures
        r matches Some(s) ==> spec_common_prefix(names@.map_values(|n: &str| n@)) == Some(s@),
        r is None ==> spec_common_prefix(names@.map_values(|n: &str| n@)) is None,
{
    let ghost all = names@.map_values(|n: &str| n@);
    if names.len() == 0 {
        return None;
    }
    let first = names[0];
    let fc = to_chars(first);
    let ghost rest = all.drop_first();
    let mut len: usize = fc.len();
    let mut i: usize = 1;
    proof {
        assert(rest.take(0) =~= Seq::<Seq<char>>::empty());
    }
    while i < names.len()
        invariant
            1 <= i <= names@.len(),
            all == names@.map_values(|n: &str| n@),
            rest == all.drop_first(),
            first@ == all[0],
            fc@ == first@,
            len == shared_len(first@, rest.take(i - 1)),
            len <= fc@.len(),
        decreases names@.len() - i,
    {
        let nc = to_chars(names[i]);
        let shared = common_len(&fc, &nc);
        proof {
            assert(rest.take(i as int).drop_last() =~= rest.take(i - 1));
            assert(rest.take(i as int).last() == names@[i as int]@);
        }
        if shared < len {
            len = shared;
        }
        i += 1;
    }
    proof {
        assert(rest.take(i - 1) =~= rest);
    }
    let mut end = len;
    while end > 0 && (fc[end - 1] == '/' || fc[end - 1] == '-' || fc[end - 1] == '_' || fc[end - 1]
        == '.' || fc[end - 1] == ' ')
        invariant
            end <= len <= fc@.len(),
            forall|k: int| end <= k < len ==> is_name_separator(fc@[k]),
        decreases end,
    {
        end -= 1;
    }
    proof {
        let p = first@.take(len as int);
        lemma_trim_separators_take(p, end as int);
        assert(p.take(end as int) =~= first@.subrange(0, end as int));
        assert(trim_separators(p.take(end as int)) == p.take(end as int));
    }
    if end == 0 {
        None
    } else {
        Some(substring(first, 0, end))
    }
}

/// The base name of the sequential layout of `steps`, if they follow it.
pub fn check_sequential_layout(steps: &[Step]) -> (r: Option<String>)
    ensures
        r matches Some(s) ==> spec_sequential_layout(steps@) == Some(s@),
        r is None ==> spec_sequential_layout(steps@) is None,
{
    if steps.len() == 0 {
        return None;
    }
    let tip = &steps[steps.len() - 1];
    let base = match &tip.branch {
        Some(b) => b,
        None => return None,
    };
    let mut i: usize = 0;
    while i < steps.len() - 1
        invariant
            steps@.len() > 0,
            i <= steps@.len() - 1,
            steps@.last().branch == Some(*base),
            forall|k: int| 0 <= k < i ==> (#[trigger] steps@[k].branch matches Some(b) && b@
                == sequential_branch(base@, (k + 1) as nat)),
        decreases steps@.len() - 1 - i,
    {
        let number = usize_to_decimal(i + 1);
        let expected = cat3(base.as_str(), "-", number.as_str());
        let matches = match &steps[i].branch {
            Some(b) => str_eq(b.as_str(), expected.as_str()),
            None => false,
        };
        if !matches {
            return None;
        }
        i += 1;
    }
    Some(base.clone())
}

/// The layout name is the tip's branch: a sequential layout is never reported
/// for steps whose last step has no branch, and its base is that branch.
pub proof fn law_sequential_base_is_tip(steps: Seq<Step>)
    requires
        spec_sequential_layout(steps) is Some,
    ensures
        steps.len() > 0,
        steps.last().branch matches Some(b) && spec_sequential_layout(steps) == Some(b@),
{
}

} // verus!
