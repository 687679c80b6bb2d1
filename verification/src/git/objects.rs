//! Objects: trees, blobs, commits and their contents.

use vstd::prelude::*;
use super::command::{command_line, output_text_of_some_run};
use super::parse::{parse_tree_listing, tree_entries_of_lines, tree_entry_view, tree_error_message};
use super::repo::GitRepo;
use super::types::TreeEntry;
use crate::error::{Result, StaircaseError};
use crate::text::{cat, cat3, lines, owned, trim, trim_str, views, words, words_of};

verus! {

/// One line of `git mktree -z` input: `<mode> <kind> <oid>\t<name>` and a NUL.
pub open spec fn tree_line(e: TreeEntry) -> Seq<char> {
    e.mode@ + " "@ + e.kind@ + " "@ + e.oid@ + "\t"@ + e.name@ + seq!['\0']
}

/// The `git mktree -z` input for `entries`, in order.
pub open spec fn tree_input(entries: Seq<TreeEntry>) -> Seq<char>
    decreases entries.len(),
{
    if entries.len() == 0 {
        seq![]
    } else {
        tree_input(entries.drop_last()) + tree_line(entries.last())
    }
}

/// Builds the `git mktree -z` input for `entries`.
pub fn mktree_input(entries: &[TreeEntry]) -> (r: String)
    ensures
        r@ == tree_input(entries@),
{
    let mut input = String::new();
    let mut i: usize = 0;
    proof {
        assert(entries@.take(0) =~= Seq::<TreeEntry>::empty());
    }
    while i < entries.len()
        invariant
            i <= entries@.len(),
            input@ == tree_input(entries@.take(i as int)),
        decreases entries@.len() - i,
    {
        let e = &entries[i];
        input.append(e.mode.as_str());
        input.append(" ");
        input.append(e.kind.as_str());
        input.append(" ");
        input.append(e.oid.as_str());
        input.append("\t");
        input.append(e.name.as_str());
        input.append("\0");
        proof {
            reveal_strlit(" ");
            reveal_strlit("\t");
            reveal_strlit("\0");
            assert(entries@.take(i + 1).drop_last() =~= entries@.take(i as int));
            assert(entries@.take(i + 1).last() == *e);
            assert(input@ =~= tree_input(entries@.take(i as int)) + tree_line(*e));
        }
        i += 1;
    }
    proof {
        assert(entries@.take(i as int) =~= entries@);
    }
    input
}

/// The first word of `s`, or nothing when it has none.
pub open spec fn first_word(s: Seq<char>) -> Seq<char> {
    if words(s).len() > 0 {
        words(s)[0]
    } else {
        seq![]
    }
}

impl GitRepo {
    /// The tree of the commit that `rev` names, memoized by commit.
    pub fn get_tree_id(&self, rev: &str) -> (r: Result<String>)
        ensures
            r matches Err(e) ==> (e is Io || e is GitCommandFailed),
    {
        let commit_oid = self.resolve_commit(rev)?;
        let op = self.memoizer.TreeId(commit_oid.clone());
        match op.get() {
            Some(tree) => return Ok(tree),
            None => {},
        }
        let target = cat(commit_oid.as_str(), "^{tree}");
        let tree = self.command().args(&["rev-parse", target.as_str()]).run()?;
        op.put(tree.clone());
        Ok(tree)
    }

    /// Stores `content` as a blob and returns its id.
    pub fn write_blob(&self, content: &str) -> (r: Result<String>)
        ensures
            r matches Err(StaircaseError::GitCommandFailed { command, .. }) ==> command@
                == command_line(seq!["hash-object"@, "-w"@, "--stdin"@]),
    {
        let c = self.command().args(&["hash-object", "-w", "--stdin"]);
        proof {
            assert(views(c.args@) =~= seq!["hash-object"@, "-w"@, "--stdin"@]);
        }
        c.stdin(content).run()
    }

    /// Stores a tree of `entries` (see [`tree_input`]) and returns its id.
    pub fn write_tree(&self, entries: &[TreeEntry]) -> (r: Result<String>)
        ensures
            r matches Err(StaircaseError::GitCommandFailed { command, .. }) ==> command@
                == command_line(seq!["mktree"@, "-z"@]),
    {
        let input = mktree_input(entries);
        let c = self.command().args(&["mktree", "-z"]);
        proof {
            assert(views(c.args@) =~= seq!["mktree"@, "-z"@]);
        }
        c.stdin(input.as_str()).run()
    }

    /// The Git object id that `data` would have as a blob, memoized by the
    /// SHA-256 of `data`.
    pub fn hash_data(&self, data: &str) -> (r: Result<String>)
        ensures
            r matches Err(e) ==> (e is Io || e is GitCommandFailed),
    {
        let op = self.memoizer.hash_data(data);
        match op.get() {
            Some(hash) => return Ok(hash),
            None => {},
        }
        let hash = self.command().args(&["hash-object", "--stdin"]).stdin(data).run()?;
        op.put(hash.clone());
        Ok(hash)
    }

    /// The patch id of the diff from `base` to `tip`: the first word of
    /// `git patch-id` on `git diff-tree -p`, memoized.
    pub fn get_patch_id(&self, base: &str, tip: &str) -> (r: Result<String>)
        ensures
            r matches Err(e) ==> (e is Io || e is GitCommandFailed),
    {
        let op = self.memoizer.PatchId(owned(base), owned(tip));
        match op.get() {
            Some(pid) => return Ok(pid),
            None => {},
        }
        let diff = self.command().args(&["diff-tree", "-p", base, tip]).run()?;
        let stdout = self.command().args(&["patch-id"]).stdin(diff.as_str()).run()?;
        let ws = words_of(stdout.as_str());
        let pid = if ws.len() > 0 {
            ws[0].clone()
        } else {
            String::new()
        };
        op.put(pid.clone());
        Ok(pid)
    }

    /// The type of object `oid` (`blob`, `tree`, `commit` or `tag`).
    pub fn get_object_type(&self, oid: &str) -> (r: Result<String>)
        ensures
            r matches Ok(t) ==> exists|s: Seq<char>| output_text_of_some_run(true, false, s) && t@ == #[trigger] trim(s),
            r matches Err(StaircaseError::GitCommandFailed { command, .. }) ==> command@
                == command_line(seq!["cat-file"@, "-t"@, oid@]),
    {
        let c = self.command().args(&["cat-file", "-t", oid]);
        proof {
            assert(views(c.args@) =~= seq!["cat-file"@, "-t"@, oid@]);
        }
        let raw = c.trim(false).run()?;
        Ok(trim_str(raw.as_str()))
    }

    /// The contents of object `oid`, untrimmed.
    pub fn cat_file(&self, oid: &str) -> (r: Result<String>)
        ensures
            r matches Ok(t) ==> output_text_of_some_run(true, false, t@),
            r matches Err(StaircaseError::GitCommandFailed { command, .. }) ==> command@
                == command_line(seq!["cat-file"@, "-p"@, oid@]),
    {
        let c = self.command().args(&["cat-file", "-p", oid]);
        proof {
            assert(views(c.args@) =~= seq!["cat-file"@, "-p"@, oid@]);
        }
        c.trim(false).run()
    }

    /// The entries of tree `oid` as `git ls-tree` lists them; a malformed
    /// line is an error (see [`parse_tree_listing`]).
    pub fn ls_tree(&self, oid: &str) -> (r: Result<Vec<TreeEntry>>)
        ensures
            r matches Ok(v) ==> exists|s: Seq<char>| output_text_of_some_run(true, true, s)
                && #[trigger] tree_entries_of_lines(lines(s)) == Ok::<Seq<(Seq<char>, Seq<char>, Seq<char>, Seq<char>)>, super::parse::TreeLineError>(
                    v@.map_values(|e: TreeEntry| tree_entry_view(e))),
            r matches Err(StaircaseError::GitCommandFailed { command, .. }) ==> command@
                == command_line(seq!["ls-tree"@, oid@]),
            r matches Err(StaircaseError::Other(m)) ==> exists|s: Seq<char>| #[trigger] output_text_of_some_run(true, true, s)
                && (tree_entries_of_lines(lines(s)) matches Err(e) && m@ == super::parse::tree_error_message(e, oid@)),
    {
        let c = self.command().args(&["ls-tree", oid]);
        proof {
            assert(views(c.args@) =~= seq!["ls-tree"@, oid@]);
        }
        let output = c.run()?;
        let r = parse_tree_listing(oid, output.as_str());
        proof {
            match tree_entries_of_lines(lines(output@)) {
                Ok(es) => {},
                Err(e) => {
                    assert(tree_entries_of_lines(lines(output@)) == Err::<Seq<(Seq<char>, Seq<char>, Seq<char>, Seq<char>)>, super::parse::TreeLineError>(e));
                },
            }
        }
        r
    }

    /// Creates a commit of tree `tree_oid` with `message` and `parents` (in
    /// order) and returns its id.
    pub fn commit_tree(&self, tree_oid: &str, parents: &[&str], message: &str) -> (r: Result<String>)
        ensures
            r matches Err(StaircaseError::GitCommandFailed { command, .. }) ==> command@
                == command_line(commit_tree_args(tree_oid@, parents@.map_values(|p: &str| p@), message@)),
    {
        let mut cmd = self.command().arg("commit-tree").arg(tree_oid).arg("-m").arg(message);
        let mut i: usize = 0;
        proof {
            assert(parents@.map_values(|p: &str| p@).take(0) =~= Seq::<Seq<char>>::empty());
            assert(views(cmd.args@) =~= commit_tree_args(tree_oid@, parents@.map_values(|p: &str| p@).take(0), message@));
        }
        while i < parents.len()
            invariant
                i <= parents@.len(),
                views(cmd.args@) == commit_tree_args(tree_oid@, parents@.map_values(|p: &str| p@).take(i as int), message@),
                cmd.check_status,
            decreases parents@.len() - i,
        {
            cmd = cmd.arg("-p").arg(parents[i]);
            proof {
                let ps = parents@.map_values(|p: &str| p@);
                assert(ps.take(i + 1).drop_last() =~= ps.take(i as int));
                assert(ps.take(i + 1).last() == parents@[i as int]@);
            }
            i += 1;
        }
        proof {
            assert(parents@.map_values(|p: &str| p@).take(i as int) =~= parents@.map_values(|p: &str| p@));
        }
        cmd.run()
    }

    /// The contents of `path` in the tree of `rev` (`git show <rev>:<path>`).
    pub fn read_tree_file(&self, rev: &str, path: &str) -> (r: Result<String>)
        ensures
            r matches Err(StaircaseError::GitCommandFailed { command, .. }) ==> command@
                == command_line(seq!["show"@, rev@ + ":"@ + path@]),
    {
        let spec = cat3(rev, ":", path);
        let args = ["show", spec.as_str()];
        proof {
            assert(args@.map_values(|a: &str| a@) =~= seq!["show"@, rev@ + ":"@ + path@]);
        }
        self.run(&args)
    }
}

/// The arguments of `git commit-tree` for a tree, its parents and a message.
pub open spec fn commit_tree_args(tree: Seq<char>, parents: Seq<Seq<char>>, message: Seq<char>) -> Seq<Seq<char>>
    decreases parents.len(),
{
    if parents.len() == 0 {
        seq!["commit-tree"@, tree, "-m"@, message]
    } else {
        commit_tree_args(tree, parents.drop_last(), message) + seq!["-p"@, parents.last()]
    }
}

} // verus!
