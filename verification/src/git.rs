//! The worktrees of sessions, as far as they are decided here.
//!
//! Worktrees are provided by `git`, which the caller runs. What is decided here
//! is what `git` is asked for and what its answers come to: the name of a
//! session's branch and folder, where the worktree is placed, the directory that
//! a session works in, and the branches that go with a worktree.

use crate::text::{
    ends_with, has_ending, optional_text, replace_all, replaced, str_eq, texts, trim, trimmed,
};
use vstd::prelude::*;
use vstd::string::*;

verus! {

/// Where a session works, and the worktree that was set up for it, if one was.
#[derive(Debug, Clone, PartialEq, Eq)]
pub struct WorktreeSetupResult {
    pub effective_dir: String,
    pub worktree_path: Option<String>,
    pub git_repo_path: Option<String>,
}

/// Whether a worktree was removed, and why not if it was not.
#[derive(Debug, Clone, PartialEq, Eq)]
pub struct WorktreeRemoveResult {
    pub success: bool,
    pub error: Option<String>,
}

/// Whether a worktree was set up: the directory lies in a repository, and the
/// worktree could be created.
pub open spec fn worktree_ready(
    repo_root: Option<String>,
    worktree: Option<Result<String, String>>,
) -> bool {
    repo_root is Some && worktree matches Some(Ok(_))
}

/// Where a session works, given what was found and done for it.
///
/// `repo_root` is the root of the repository that `working_dir` lies in, `None`
/// where it lies in none; `worktree` is the outcome of creating a worktree in
/// that repository, `None` where none was tried. Where a worktree was created
/// the session works in it. In every other case the session works in
/// `working_dir`, and no worktree is named: a failure here never keeps a session
/// from starting.
pub fn setup_worktree_for_session(
    working_dir: &str,
    repo_root: Option<String>,
    worktree: Option<Result<String, String>>,
) -> (result: WorktreeSetupResult)
    ensures
        worktree_ready(repo_root, worktree) ==> {
            &&& result.effective_dir@ == worktree->Some_0->Ok_0@
            &&& result.worktree_path is Some
            &&& result.worktree_path->Some_0@ == worktree->Some_0->Ok_0@
            &&& result.git_repo_path is Some
            &&& result.git_repo_path->Some_0@ == repo_root->Some_0@
        },
        !worktree_ready(repo_root, worktree) ==> {
            &&& result.effective_dir@ == working_dir@
            &&& result.worktree_path is None
            &&& result.git_repo_path is None
        },
{
    match (repo_root, worktree) {
        (Some(root), Some(Ok(path))) => WorktreeSetupResult {
            effective_dir: path.clone(),
            worktree_path: Some(path),
            git_repo_path: Some(root),
        },
        _ => WorktreeSetupResult {
            effective_dir: String::from_str(working_dir),
            worktree_path: None,
            git_repo_path: None,
        },
    }
}

/// What `str::lines` returns for a text: its lines, without their endings.
pub uninterp spec fn lines_of(text: Seq<char>) -> Seq<Seq<char>>;

/// `str::lines` hands out the lines of a text one by one; they are collected in
/// their order.
#[verifier::external_body]
fn lines(text: &str) -> (out: Vec<String>)
    ensures
        texts(out@) == lines_of(text@),
{
    let mut out = Vec::new();
    for line in text.lines() {
        out.push(line.to_string());
    }
    out
}

/// Whether `text` starts with `start`.
pub open spec fn starts_with(text: Seq<char>, start: Seq<char>) -> bool {
    start.len() <= text.len() && text.subrange(0, start.len() as int) == start
}

/// `text` without `prefix` at its start, as often as `prefix` stands there.
pub open spec fn without_prefixes(text: Seq<char>, prefix: Seq<char>) -> Seq<char>
    decreases text.len(),
{
    if prefix.len() > 0 && starts_with(text, prefix) {
        without_prefixes(text.subrange(prefix.len() as int, text.len() as int), prefix)
    } else {
        text
    }
}

/// `str::trim_start_matches` removes all prefixes that match a pattern,
/// repeatedly. An empty pattern is left out.
#[verifier::external_body]
fn strip_prefixes<'a>(text: &'a str, prefix: &str) -> (out: &'a str)
    requires
        prefix@.len() > 0,
    ensures
        out@ == without_prefixes(text@, prefix@),
{
    text.trim_start_matches(prefix)
}

/// The root of the repository that a directory lies in, from the answer to
/// `git rev-parse --show-toplevel`: what `git` printed, without the white space
/// around it, where `git` succeeded.
pub fn git_root(success: bool, stdout: &str) -> (root: Option<String>)
    ensures
        success ==> root is Some && root->Some_0@ == trimmed(stdout@),
        !success ==> root is None,
{
    if success {
        Some(String::from_str(trim(stdout)))
    } else {
        None
    }
}

/// The branch that a name printed by `git` stands for: the name itself, `None`
/// where it is empty.
pub fn named_branch(name: &str) -> (branch: Option<String>)
    ensures
        name@.len() > 0 ==> branch is Some && branch->Some_0@ == name@,
        name@.len() == 0 ==> branch is None,
{
    if name.is_empty() {
        None
    } else {
        Some(String::from_str(name))
    }
}

/// The branch that a directory is on, from the answer to
/// `git rev-parse --abbrev-ref HEAD`: what `git` printed, without the white
/// space around it, where `git` succeeded and printed a name.
pub fn current_branch(success: bool, stdout: &str) -> (branch: Option<String>)
    ensures
        success && trimmed(stdout@).len() > 0 ==> branch is Some && branch->Some_0@ == trimmed(
            stdout@,
        ),
        !success || trimmed(stdout@).len() == 0 ==> branch is None,
{
    if success {
        named_branch(trim(stdout))
    } else {
        None
    }
}

/// The name of a session's branch: the prefix, then the session's identifier.
pub fn branch_name(branch_prefix: &str, session_id: &str) -> (name: String)
    ensures
        name@ == branch_prefix@ + session_id@,
{
    let mut name = String::from_str(branch_prefix);
    name.append(session_id);
    name
}

/// The name of a worktree's folder: the name of its branch, with `-` for each
/// `/`, so that the name is one step of a path.
pub fn folder_name(branch_name: &str) -> (name: String)
    ensures
        name@ == replaced(branch_name@, "/"@, "-"@),
{
    proof {
        reveal_strlit("/");
    }
    replace_all(branch_name, "/", "-")
}

/// The directory that a worktree is placed below.
#[derive(Debug, Clone, PartialEq, Eq)]
pub enum PlacementBase {
    /// The directory that holds the repository.
    RepoParent,
    /// The home directory of the user.
    Home,
    /// A directory that the caller names.
    Custom(String),
}

/// Where a worktree is placed: a directory, the steps below it that lead to the
/// worktree, and whether the directory above the worktree is made first.
#[derive(Debug, Clone, PartialEq, Eq)]
pub struct WorktreePlacement {
    pub base: PlacementBase,
    pub steps: Vec<String>,
    pub create_parent: bool,
}

/// The name that a repository goes by: the last step of its path, `repo` where
/// there is none.
pub open spec fn repo_name_or_default(repo_name: Option<Seq<char>>) -> Seq<char> {
    match repo_name {
        Some(name) => name,
        None => "repo"@,
    }
}

/// The steps that lead from the base to a worktree.
pub open spec fn placement_steps(
    location: Seq<char>,
    repo_name: Option<Seq<char>>,
    folder_name: Seq<char>,
) -> Seq<Seq<char>> {
    if location == "sibling"@ {
        seq![folder_name]
    } else if location == "home"@ {
        seq![".clutch"@, "worktrees"@, repo_name_or_default(repo_name), folder_name]
    } else {
        seq![repo_name_or_default(repo_name), folder_name]
    }
}

/// Whether `base` is the base that `location` asks for.
pub open spec fn is_base_for(base: PlacementBase, location: Seq<char>) -> bool {
    if location == "sibling"@ {
        base is RepoParent
    } else if location == "home"@ {
        base is Home
    } else {
        base matches PlacementBase::Custom(dir) && dir@ == location
    }
}

/// Where the worktree of a session is placed.
///
/// `location` is `sibling`, `home`, or a directory. A sibling lies beside the
/// repository, under the folder's name. At home the worktree lies below the
/// home directory, under `.clutch/worktrees`, the repository's name and the
/// folder's name; in a directory it lies under the repository's name and the
/// folder's name. The directory above the worktree is made first, but for a
/// sibling, whose parent is there.
pub fn worktree_placement(location: &str, repo_name: Option<String>, folder_name: String) -> (placement: WorktreePlacement)
    ensures
        is_base_for(placement.base, location@),
        texts(placement.steps@) == placement_steps(
            location@,
            optional_text(repo_name),
            folder_name@,
        ),
        placement.create_parent == (location@ != "sibling"@),
{
    let repo = match repo_name {
        Some(name) => name,
        None => String::from_str("repo"),
    };
    if str_eq(location, "sibling") {
        let steps = vec![folder_name];
        assert(texts(steps@) =~= seq![folder_name@]);
        WorktreePlacement { base: PlacementBase::RepoParent, steps, create_parent: false }
    } else if str_eq(location, "home") {
        let steps = vec![
            String::from_str(".clutch"),
            String::from_str("worktrees"),
            repo,
            folder_name,
        ];
        assert(texts(steps@) =~= seq![".clutch"@, "worktrees"@, repo@, folder_name@]);
        WorktreePlacement { base: PlacementBase::Home, steps, create_parent: true }
    } else {
        let steps = vec![repo, folder_name];
        assert(texts(steps@) =~= seq![repo@, folder_name@]);
        WorktreePlacement {
            base: PlacementBase::Custom(String::from_str(location)),
            steps,
            create_parent: true,
        }
    }
}

/// The words that a base which cannot be found is reported with.
pub fn placement_failure(base: &PlacementBase) -> (message: &'static str)
    ensures
        base is Home ==> message@ == "Cannot determine home directory"@,
        !(base is Home) ==> message@ == "Cannot determine parent directory of repo"@,
{
    match base {
        PlacementBase::Home => "Cannot determine home directory",
        _ => "Cannot determine parent directory of repo",
    }
}

/// What `git` is asked for to create a worktree on a new branch.
pub fn worktree_add_args(branch_name: &str, worktree_path: &str) -> (args: Vec<String>)
    ensures
        texts(args@) == seq!["worktree"@, "add"@, "-b"@, branch_name@, worktree_path@],
{
    let args = vec![
        String::from_str("worktree"),
        String::from_str("add"),
        String::from_str("-b"),
        String::from_str(branch_name),
        String::from_str(worktree_path),
    ];
    assert(texts(args@) =~= seq!["worktree"@, "add"@, "-b"@, branch_name@, worktree_path@]);
    args
}

/// What the creation of a worktree comes to: its path where `git` succeeded,
/// else what `git` complained of.
pub fn worktree_created(success: bool, worktree_path: String, stderr: &str) -> (created: Result<
    String,
    String,
>)
    ensures
        success ==> created is Ok && created->Ok_0@ == worktree_path@,
        !success ==> created is Err && created->Err_0@ == "git worktree add failed: "@ + trimmed(
            stderr@,
        ),
{
    if success {
        Ok(worktree_path)
    } else {
        let mut message = String::from_str("git worktree add failed: ");
        message.append(trim(stderr));
        Err(message)
    }
}

/// What the removal of a worktree comes to. `outcome` holds whether `git`
/// succeeded and what it complained of, or why it could not be run.
pub fn worktree_removed(outcome: Result<(bool, String), String>) -> (result: WorktreeRemoveResult)
    ensures
        match outcome {
            Ok((success, stderr)) => {
                &&& result.success == success
                &&& success ==> result.error is None
                &&& !success ==> result.error is Some && result.error->Some_0@ == trimmed(stderr@)
            },
            Err(failure) => {
                &&& !result.success
                &&& result.error is Some
                &&& result.error->Some_0@ == "Failed to run git worktree remove: "@ + failure@
            },
        },
{
    match outcome {
        Ok((success, stderr)) => {
            if success {
                WorktreeRemoveResult { success: true, error: None }
            } else {
                WorktreeRemoveResult {
                    success: false,
                    error: Some(String::from_str(trim(stderr.as_str()))),
                }
            }
        },
        Err(failure) => {
            let mut message = String::from_str("Failed to run git worktree remove: ");
            message.append(failure.as_str());
            WorktreeRemoveResult { success: false, error: Some(message) }
        },
    }
}

/// The pattern that lists the branches which end with a session's identifier.
pub fn branch_pattern(session_id: &str) -> (pattern: String)
    ensures
        pattern@ == "*"@ + session_id@,
{
    let mut pattern = String::from_str("*");
    pattern.append(session_id);
    pattern
}

/// The name of the branch on one line of a list of branches: the line without
/// the white space around it and without the mark of the current branch.
pub open spec fn branch_on(line: Seq<char>) -> Seq<char> {
    without_prefixes(trimmed(line), "* "@)
}

/// The names of the branches on the lines of a list of branches.
pub open spec fn branches_on(lines: Seq<Seq<char>>) -> Seq<Seq<char>> {
    Seq::new(lines.len(), |i: int| branch_on(lines[i]))
}

/// The names among `names` that end with `end`, in their order.
pub open spec fn ending_with(names: Seq<Seq<char>>, end: Seq<char>) -> Seq<Seq<char>>
    decreases names.len(),
{
    if names.len() == 0 {
        Seq::empty()
    } else if ends_with(names.last(), end) {
        ending_with(names.drop_last(), end).push(names.last())
    } else {
        ending_with(names.drop_last(), end)
    }
}

/// The names of the branches that `git branch --list` printed.
pub fn branch_names(listing: &str) -> (names: Vec<String>)
    ensures
        texts(names@) == branches_on(lines_of(listing@)),
{
    let all = lines(listing);
    let mut names: Vec<String> = Vec::new();
    let mut i: usize = 0;
    proof {
        reveal_strlit("* ");
    }
    while i < all.len()
        invariant
            i <= all@.len(),
            names@.len() == i,
            "* "@.len() > 0,
            forall|j: int| 0 <= j < i ==> (#[trigger] names@[j])@ == branch_on(all@[j]@),
        decreases all@.len() - i,
    {
        let name = strip_prefixes(trim(all[i].as_str()), "* ");
        names.push(String::from_str(name));
        i += 1;
    }
    assert(texts(names@) =~= branches_on(texts(all@)));
    names
}

/// The branches among `names` that end with a session's identifier, in their
/// order.
pub fn branches_ending_with(names: &Vec<String>, session_id: &str) -> (found: Vec<String>)
    ensures
        texts(found@) == ending_with(texts(names@), session_id@),
{
    let mut found: Vec<String> = Vec::new();
    let ghost all = texts(names@);
    assert(texts(found@) =~= ending_with(all.take(0), session_id@));
    let mut i: usize = 0;
    while i < names.len()
        invariant
            i <= names@.len(),
            all == texts(names@),
            texts(found@) == ending_with(all.take(i as int), session_id@),
        decreases names@.len() - i,
    {
        proof {
            assert(all.take(i + 1).drop_last() =~= all.take(i as int));
            assert(all.take(i + 1).last() == names@[i as int]@);
        }
        if has_ending(names[i].as_str(), session_id) {
            let ghost before = texts(found@);
            found.push(names[i].clone());
            assert(texts(found@) =~= before.push(names@[i as int]@));
        }
        i += 1;
    }
    assert(all.take(i as int) =~= all);
    found
}

/// The branches to delete with the worktree of a session: of the branches that
/// `git branch --list` printed, those that end with the session's identifier.
pub fn branches_to_delete(listing: &str, session_id: &str) -> (found: Vec<String>)
    ensures
        texts(found@) == ending_with(branches_on(lines_of(listing@)), session_id@),
{
    let names = branch_names(listing);
    branches_ending_with(&names, session_id)
}

} // verus!
