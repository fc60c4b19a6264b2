//! The arguments that `git` and `gh` are run with.

use vstd::prelude::*;
use crate::text::{concat, parts_view, texts_view, to_texts};

verus! {

/// The arguments of `git` that show the URL of the remote.
pub open spec fn remote_args() -> Seq<Seq<char>> {
    seq!["remote"@, "get-url"@, "origin"@]
}

/// The arguments of `git` that show the URL of the remote.
pub fn remote_arguments() -> (args: Vec<String>)
    ensures
        texts_view(args@) == remote_args(),
{
    let parts: Vec<&str> = vec!["remote", "get-url", "origin"];
    assert(parts_view(parts@) =~= remote_args());
    to_texts(parts)
}

/// The arguments of `git` that push a branch.
pub open spec fn push_args(branch: Seq<char>) -> Seq<Seq<char>> {
    seq!["push"@, "-u"@, "origin"@, branch]
}

/// The arguments of `git` that push a branch.
pub fn push_arguments(branch: &str) -> (args: Vec<String>)
    ensures
        texts_view(args@) == push_args(branch@),
{
    let parts: Vec<&str> = vec!["push", "-u", "origin", branch];
    assert(parts_view(parts@) =~= push_args(branch@));
    to_texts(parts)
}

/// The arguments of `gh` that show some fields of a pull request, found by its branch or URL.
pub open spec fn view_args(subject: Seq<char>, fields: Seq<char>) -> Seq<Seq<char>> {
    seq!["pr"@, "view"@, subject, "--json"@, fields]
}

/// The arguments of `gh` that show some fields of a pull request, found by its branch or URL.
pub fn view_arguments(subject: &str, fields: &str) -> (args: Vec<String>)
    ensures
        texts_view(args@) == view_args(subject@, fields@),
{
    let parts: Vec<&str> = vec!["pr", "view", subject, "--json", fields];
    assert(parts_view(parts@) =~= view_args(subject@, fields@));
    to_texts(parts)
}

/// The arguments of `gh` that merge a pull request and delete its branch.
pub open spec fn merge_args(branch: Seq<char>, flag: Seq<char>) -> Seq<Seq<char>> {
    seq!["pr"@, "merge"@, branch, flag, "--delete-branch"@]
}

/// The arguments of `gh` that merge a pull request and delete its branch.
pub fn merge_arguments(branch: &str, flag: &str) -> (args: Vec<String>)
    ensures
        texts_view(args@) == merge_args(branch@, flag@),
{
    let parts: Vec<&str> = vec!["pr", "merge", branch, flag, "--delete-branch"];
    assert(parts_view(parts@) =~= merge_args(branch@, flag@));
    to_texts(parts)
}

/// The arguments of `gh` that mark a draft as ready.
pub open spec fn ready_args(branch: Seq<char>) -> Seq<Seq<char>> {
    seq!["pr"@, "ready"@, branch]
}

/// The arguments of `gh` that mark a draft as ready.
pub fn ready_arguments(branch: &str) -> (args: Vec<String>)
    ensures
        texts_view(args@) == ready_args(branch@),
{
    let parts: Vec<&str> = vec!["pr", "ready", branch];
    assert(parts_view(parts@) =~= ready_args(branch@));
    to_texts(parts)
}

/// The arguments of `gh` that show the log of what failed in a run.
pub open spec fn log_args(run_id: Seq<char>) -> Seq<Seq<char>> {
    seq!["run"@, "view"@, run_id, "--log-failed"@]
}

/// The arguments of `gh` that show the log of what failed in a run.
pub fn log_arguments(run_id: &str) -> (args: Vec<String>)
    ensures
        texts_view(args@) == log_args(run_id@),
{
    let parts: Vec<&str> = vec!["run", "view", run_id, "--log-failed"];
    assert(parts_view(parts@) =~= log_args(run_id@));
    to_texts(parts)
}

/// The arguments of `git` that sum up what has changed since a branch.
pub open spec fn diff_args(base_branch: Seq<char>) -> Seq<Seq<char>> {
    seq!["diff"@, "--stat"@, base_branch + "...HEAD"@]
}

/// The arguments of `git` that sum up what has changed since a branch.
pub fn diff_arguments(base_branch: &str) -> (args: Vec<String>)
    ensures
        texts_view(args@) == diff_args(base_branch@),
{
    let range = concat(base_branch, "...HEAD");
    let parts: Vec<&str> = vec!["diff", "--stat", range.as_str()];
    assert(parts_view(parts@) =~= diff_args(base_branch@));
    to_texts(parts)
}

/// The arguments of `gh` that create a pull request.
pub open spec fn create_args(
    title: Seq<char>,
    body: Seq<char>,
    base_branch: Seq<char>,
    draft: bool,
) -> Seq<Seq<char>> {
    let args = seq!["pr"@, "create"@, "--title"@, title, "--body"@, body, "--base"@, base_branch];
    if draft {
        args.push("--draft"@)
    } else {
        args
    }
}

/// The arguments of `gh` that create a pull request.
pub fn create_arguments(
    title: &str,
    body: &str,
    base_branch: &str,
    draft: bool,
) -> (args: Vec<String>)
    ensures
        texts_view(args@) == create_args(title@, body@, base_branch@, draft),
{
    let mut parts: Vec<&str> = vec!["pr", "create", "--title", title, "--body", body, "--base", base_branch];
    if draft {
        parts.push("--draft");
    }
    assert(parts_view(parts@) =~= create_args(title@, body@, base_branch@, draft));
    to_texts(parts)
}

} // verus!
