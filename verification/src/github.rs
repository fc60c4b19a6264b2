//! What GitHub's remotes, command output and pull requests mean.

use vstd::prelude::*;
use crate::error::{ErrorView, RequestError, result_view};
use crate::json::{Json, JsonView, Object, has_text, items_view, json_view, text_view};
use crate::text::{
    after_last, blank, concat, concat3, contains, find, first_occurrence, joined, last_lines,
    lemma_after_last, lemma_after_last_holds, lemma_after_last_within, lemma_length_before,
    lemma_length_before_bounds, length_before, lines, occurs, part_until, same_letters, same_text,
    small_letters, starts_with, tail, to_chars, to_small_letters, trim, trim_trailing, trimmed,
    without_trailing,
};

verus! {

/// Whether the URL of a remote points to `github.com`: white space around it, slashes and then
/// `.git` at its end do not count.
pub open spec fn github_remote(remote: Seq<char>) -> bool {
    let url = without_trailing(without_trailing(trimmed(remote), "/"@), ".git"@);
    ||| "git@github.com:"@.is_prefix_of(url)
    ||| "git@github.com/"@.is_prefix_of(url)
    ||| "ssh://git@github.com/"@.is_prefix_of(url)
    ||| "https://github.com/"@.is_prefix_of(url)
    ||| "http://github.com/"@.is_prefix_of(url)
    ||| "git://github.com/"@.is_prefix_of(url)
}

/// Whether the URL of a remote points to `github.com`.
pub fn is_github_remote(remote: &str) -> (github: bool)
    ensures
        github == github_remote(remote@),
{
    proof {
        reveal_strlit("/");
        reveal_strlit(".git");
    }
    let url = trim_trailing(trim_trailing(trim(remote), "/"), ".git");
    starts_with(url, "git@github.com:") || starts_with(url, "git@github.com/") || starts_with(
        url,
        "ssh://git@github.com/",
    ) || starts_with(url, "https://github.com/") || starts_with(url, "http://github.com/")
        || starts_with(url, "git://github.com/")
}

/// The number of characters of a URL up to and with its `://`; 0 for a text that does not start
/// with a scheme and `://`.
pub open spec fn scheme_length(remote: Seq<char>) -> int {
    let name = length_before(remote, ':');
    if 0 < name && name + 3 <= remote.len() && remote[name + 1] == '/' && remote[name + 2] == '/'
        && !remote.take(name).contains('/') {
        name + 3
    } else {
        0
    }
}

/// Whether a URL is one of the web: `http` or `https`, in letters of any size.
pub open spec fn web_url(remote: Seq<char>) -> bool {
    let scheme = small_letters(remote.take(length_before(remote, ':')));
    scheme_length(remote) > 0 && (scheme == "https"@ || scheme == "http"@)
}

/// What stands before the path of a URL: the host, and before it, up to an `@`, the user and the
/// password.
pub open spec fn authority(remote: Seq<char>) -> Seq<char> {
    let rest = remote.skip(scheme_length(remote));
    rest.take(length_before(rest, '/'))
}

/// The user and the password of a URL that has any: what stands before the last `@` in front of
/// the path.
pub open spec fn user_info(remote: Seq<char>) -> Seq<char> {
    let place = authority(remote);
    place.take(place.len() - after_last(place, '@').len() - 1)
}

/// Whether a URL holds credentials: a password, behind a `:`, or, in a URL of the web, anything
/// before the host, since a user there may be a token.
pub open spec fn holds_credentials(remote: Seq<char>) -> bool {
    &&& scheme_length(remote) > 0
    &&& authority(remote).contains('@')
    &&& web_url(remote) || user_info(remote).contains(':')
}

/// A remote without credentials: a URL of the web loses everything from behind the `//` up to and
/// with the last `@` before the next slash, any other URL loses the password there. A remote that
/// is no URL is as it was.
pub open spec fn public_remote(remote: Seq<char>) -> Seq<char> {
    let scheme = scheme_length(remote);
    let place = authority(remote);
    let user = user_info(remote);
    if scheme == 0 || !place.contains('@') {
        remote
    } else {
        remote.take(scheme) + (if web_url(remote) {
            Seq::empty()
        } else {
            user.take(length_before(user, ':')).push('@')
        }) + after_last(place, '@') + remote.skip(scheme + place.len())
    }
}

/// The number of characters of a URL up to and with its `://`.
fn find_scheme(remote: &str) -> (scheme: usize)
    ensures
        scheme == scheme_length(remote@),
        scheme > 0 ==> scheme == length_before(remote@, ':') + 3,
{
    let chars = to_chars(remote);
    let mut name: usize = 0;
    while name < chars.len() && chars[name] != ':'
        invariant
            chars@ == remote@,
            name <= chars.len(),
            forall|i: int| 0 <= i < name ==> remote@[i] != ':',
        decreases chars.len() - name,
    {
        name = name + 1;
    }
    proof {
        lemma_length_before(remote@, ':', name as int);
    }
    if name == 0 || chars.len() - name < 3 || chars[name + 1] != '/' || chars[name + 2] != '/' {
        return 0;
    }
    let mut i: usize = 0;
    while i < name
        invariant
            chars@ == remote@,
            i <= name < chars.len(),
            length_before(remote@, ':') == name,
            forall|j: int| 0 <= j < i ==> remote@[j] != '/',
        decreases name - i,
    {
        if chars[i] == '/' {
            assert(remote@.take(name as int)[i as int] == '/');
            return 0;
        }
        i = i + 1;
    }
    assert(forall|j: int| 0 <= j < name ==> remote@.take(name as int)[j] == remote@[j]);
    name + 3
}

/// A remote without credentials.
#[verifier::rlimit(60)]
pub fn without_credentials(remote: &str) -> (shown: String)
    ensures
        shown@ == public_remote(remote@),
{
    let scheme: usize = find_scheme(remote);
    if scheme == 0 {
        return remote.to_owned();
    }
    let chars = to_chars(remote);
    let ghost rest = remote@.skip(scheme as int);
    let mut host: usize = scheme;
    let mut end: usize = scheme;
    while end < chars.len() && chars[end] != '/'
        invariant
            chars@ == remote@,
            scheme <= host <= end <= chars.len(),
            forall|i: int| scheme <= i < end ==> remote@[i] != '/',
            forall|i: int| host <= i < end ==> remote@[i] != '@',
            host > scheme ==> remote@[host - 1] == '@',
        decreases chars.len() - end,
    {
        if chars[end] == '@' {
            host = end + 1;
        }
        end = end + 1;
    }
    let ghost place = authority(remote@);
    proof {
        lemma_length_before(rest, '/', end - scheme);
        assert(place =~= remote@.subrange(scheme as int, end as int));
        lemma_after_last(place, '@', host - scheme);
    }
    if host == scheme {
        assert(!place.contains('@'));
        return remote.to_owned();
    }
    let name = to_small_letters(remote.substring_char(0, scheme - 3));
    let web = same_text(name.as_str(), "https") || same_text(name.as_str(), "http");
    let ghost user = user_info(remote@);
    proof {
        assert(remote@.subrange(0, scheme - 3) =~= remote@.take(scheme - 3));
        assert(web == web_url(remote@));
        assert(place[host - scheme - 1] == '@');
        assert(user =~= remote@.subrange(scheme as int, host - 1));
        assert(place.skip(host - scheme) + remote@.skip(end as int) =~= remote@.skip(host as int));
    }
    let mut front: usize = scheme;
    let mut back: usize = host;
    if !web {
        back = host - 1;
        while front < back && chars[front] != ':'
            invariant
                chars@ == remote@,
                scheme <= front <= back < chars.len(),
                forall|i: int| scheme <= i < front ==> remote@[i] != ':',
            decreases back - front,
        {
            front = front + 1;
        }
        proof {
            assert(forall|i: int| 0 <= i < user.len() ==> user[i] == remote@[scheme + i]);
            lemma_length_before(user, ':', front - scheme);
        }
    }
    proof {
        let kept = if web {
            Seq::empty()
        } else {
            user.take(front - scheme).push('@')
        };
        assert(remote@.take(scheme as int) + kept + place.skip(host - scheme) + remote@.skip(end as int)
            =~= remote@.subrange(0, front as int) + remote@.subrange(back as int, chars@.len() as int));
    }
    concat(remote.substring_char(0, front), remote.substring_char(back, chars.len()))
}

/// A URL keeps its scheme where what stands before its path is replaced.
proof fn lemma_replaced(remote: Seq<char>, middle: Seq<char>)
    requires
        scheme_length(remote) > 0,
        !middle.contains('/'),
    ensures
        ({
            let scheme = scheme_length(remote);
            let shown = remote.take(scheme) + middle + remote.skip(scheme + authority(remote).len());
            &&& scheme_length(shown) == scheme
            &&& web_url(shown) == web_url(remote)
            &&& authority(shown) == middle
            &&& shown[scheme - 3] == ':'
        }),
{
    let scheme = scheme_length(remote);
    let rest = remote.skip(scheme);
    let place = authority(remote);
    let tail = remote.skip(scheme + place.len());
    let shown = remote.take(scheme) + middle + tail;
    lemma_length_before_bounds(remote, ':');
    lemma_length_before_bounds(rest, '/');
    assert(forall|i: int| 0 <= i < scheme ==> shown[i] == remote[i]);
    lemma_length_before(shown, ':', scheme - 3);
    assert(shown.take(scheme - 3) =~= remote.take(scheme - 3));
    let shown_rest = shown.skip(scheme);
    assert(shown_rest =~= middle + tail);
    assert forall|i: int| 0 <= i < middle.len() implies shown_rest[i] != '/' by {
        assert(middle.contains(middle[i]));
    }
    if middle.len() < shown_rest.len() {
        assert(shown_rest[middle.len() as int] == rest[place.len() as int]);
    }
    lemma_length_before(shown_rest, '/', middle.len() as int);
    assert(authority(shown) =~= middle);
}

/// What stands before the path of a URL holds no slash.
proof fn lemma_authority(remote: Seq<char>)
    ensures
        !authority(remote).contains('/'),
{
    let rest = remote.skip(scheme_length(remote));
    lemma_length_before_bounds(rest, '/');
}

/// What is shown of a remote holds no credentials, and nothing is left out of a remote that holds
/// none. A remote that is not blank does not become blank.
pub proof fn law_public_remotes_hold_no_credentials(remote: Seq<char>)
    ensures
        !holds_credentials(public_remote(remote)),
        !holds_credentials(remote) ==> public_remote(remote) == remote,
        !blank(remote) ==> !blank(public_remote(remote)),
{
    let scheme = scheme_length(remote);
    let place = authority(remote);
    if scheme > 0 && place.contains('@') {
        let host = after_last(place, '@');
        let user = user_info(remote);
        let shown = public_remote(remote);
        let tail = remote.skip(scheme + place.len());
        lemma_authority(remote);
        lemma_after_last_holds(place, '@');
        lemma_after_last_within(place, '@');
        if web_url(remote) {
            assert(!host.contains('/'));
            assert(shown =~= remote.take(scheme) + host + tail);
            lemma_replaced(remote, host);
        } else {
            lemma_length_before_bounds(user, ':');
            let front = user.take(length_before(user, ':'));
            let middle = front.push('@') + host;
            assert forall|i: int| 0 <= i < middle.len() implies middle[i] != '/' by {
                if i < front.len() {
                    assert(middle[i] == place[i]);
                    assert(place.contains(place[i]));
                } else if i > front.len() {
                    assert(middle[i] == host[i - front.len() - 1]);
                }
            }
            assert(shown =~= remote.take(scheme) + middle + tail);
            lemma_replaced(remote, middle);
            assert forall|i: int| front.len() + 1 <= i < middle.len() implies middle[i] != '@' by {
                assert(middle[i] == host[i - front.len() - 1]);
            }
            lemma_after_last(middle, '@', front.len() + 1int);
            assert(middle.skip(front.len() + 1int) =~= host);
            assert(user_info(shown) =~= front);
            if !user.contains(':') {
                if length_before(user, ':') < user.len() {
                    assert(user.contains(user[length_before(user, ':')]));
                }
                assert(front.push('@') + host =~= place);
                assert(remote.take(scheme) + place + tail =~= remote) by {
                    lemma_length_before_bounds(remote.skip(scheme), '/');
                }
            }
        }
    }
}

/// Whether an error of `gh` says that there is no pull request.
pub open spec fn no_pull_request(error: Seq<char>) -> bool {
    occurs(error, "no pull requests found"@) || occurs(error, "Could not resolve to a PullRequest"@)
}

/// Whether an error of `gh` says that there is no pull request.
pub fn is_no_pull_request(error: &str) -> (missing: bool)
    ensures
        missing == no_pull_request(error@),
{
    contains(error, "no pull requests found") || contains(error, "Could not resolve to a PullRequest")
}

/// The run of GitHub Actions that a URL points into: the part behind the first
/// `/actions/runs/`, up to the next slash.
pub open spec fn run_id(url: Seq<char>) -> Option<Seq<char>> {
    let marker = "/actions/runs/"@;
    if occurs(url, marker) {
        let rest = url.skip(first_occurrence(url, marker) + marker.len());
        Some(rest.take(length_before(rest, '/')))
    } else {
        None
    }
}

/// The run of GitHub Actions that a URL points into.
pub fn action_run_id(url: &str) -> (id: Option<&str>)
    ensures
        text_view(id) == run_id(url@),
{
    let marker = "/actions/runs/";
    match find(url, marker) {
        Some(at) => {
            let length: usize = url.unicode_len();
            assert(at + marker@.len() <= length);
            let start: usize = at + marker.unicode_len();
            Some(part_until(url, start, '/'))
        },
        None => None,
    }
}

/// The state of a pull request in small letters: `draft` for a draft, else what GitHub calls it,
/// else `open`.
pub open spec fn pull_request_state(pr: JsonView) -> Seq<char> {
    if pr.bool_at("isDraft"@) == Some(true) {
        "draft"@
    } else {
        match pr.text_at("state"@) {
            Some(state) => small_letters(state),
            None => small_letters("open"@),
        }
    }
}

/// Whether GitHub says that a pull request conflicts with its base.
pub open spec fn conflicting(pr: JsonView) -> bool {
    pr.text_at("mergeable"@) == Some("CONFLICTING"@) || pr.text_at("mergeStateStatus"@) == Some("DIRTY"@)
}

/// What the panel shows of a pull request.
pub open spec fn projected_status(pr: JsonView) -> JsonView {
    JsonView::Object(
        map![
            "url"@ => pr.field_or_null("url"@),
            "state"@ => JsonView::Text(pull_request_state(pr)),
            "checks"@ => match pr.field("statusCheckRollup"@) {
                Some(checks) => checks,
                None => JsonView::Array(Seq::empty()),
            },
            "conflicting"@ => JsonView::Bool(conflicting(pr)),
            "merge_blocked"@ => JsonView::Bool(pr.text_at("mergeStateStatus"@) == Some("BLOCKED"@)),
            "review_decision"@ => pr.field_or_null("reviewDecision"@),
        ],
    )
}

/// What the panel shows of a pull request.
pub fn project_pr_status(pr: &Json) -> (status: Json)
    ensures
        status@ == projected_status(pr@),
{
    let draft = match pr.bool_at("isDraft") {
        Some(value) => value,
        None => false,
    };
    let state: String = if draft {
        "draft".to_owned()
    } else {
        match pr.text_at("state") {
            Some(state) => to_small_letters(state),
            None => to_small_letters("open"),
        }
    };
    let checks = match pr.get("statusCheckRollup") {
        Some(checks) => checks.copy(),
        None => {
            let none: Vec<Json> = Vec::new();
            assert(items_view(none@) =~= Seq::empty());
            Json::Array(none)
        },
    };
    let conflicting = has_text(pr, "mergeable", "CONFLICTING") || has_text(pr, "mergeStateStatus", "DIRTY");
    let blocked = has_text(pr, "mergeStateStatus", "BLOCKED");
    let mut status = Object::new();
    status.insert("url".to_owned(), pr.copy_at("url"));
    status.insert("state".to_owned(), Json::Text(state));
    status.insert("checks".to_owned(), checks);
    status.insert("conflicting".to_owned(), Json::Bool(conflicting));
    status.insert("merge_blocked".to_owned(), Json::Bool(blocked));
    status.insert("review_decision".to_owned(), pr.copy_at("reviewDecision"));
    Json::Object(status)
}

/// The run of GitHub Actions that a check failed in.
pub open spec fn failed_check(check: JsonView) -> Option<Seq<char>> {
    match (check.text_at("conclusion"@), check.text_at("detailsUrl"@)) {
        (Some(conclusion), Some(url)) => if small_letters(conclusion) == small_letters("failure"@) {
            run_id(url)
        } else {
            None
        },
        _ => None,
    }
}

/// The run of the first check that failed in one.
pub open spec fn first_failed(checks: Seq<JsonView>) -> Option<Seq<char>>
    decreases checks.len(),
{
    if checks.len() == 0 {
        None
    } else {
        match failed_check(checks.first()) {
            Some(id) => Some(id),
            None => first_failed(checks.drop_first()),
        }
    }
}

/// The run of GitHub Actions that a check failed in.
fn failed_check_run(check: &Json) -> (id: Option<&str>)
    ensures
        text_view(id) == failed_check(check@),
{
    match (check.text_at("conclusion"), check.text_at("detailsUrl")) {
        (Some(conclusion), Some(url)) => if same_letters(conclusion, "failure") {
            action_run_id(url)
        } else {
            None
        },
        _ => None,
    }
}

/// The first run of GitHub Actions that a check of a pull request failed in.
pub fn failed_run(status: &Json) -> (id: Result<&str, RequestError>)
    ensures
        result_view(id) == (match first_failed(status@.items_at("statusCheckRollup"@)) {
            Some(id) => Ok::<Seq<char>, ErrorView>(id),
            None => Err(ErrorView::Message("no failed GitHub Actions run found"@)),
        }),
{
    if let Some(checks) = status.items_at("statusCheckRollup") {
        let ghost all = items_view(checks@);
        let mut i: usize = 0;
        assert(all.skip(0) =~= all);
        while i < checks.len()
            invariant
                all == items_view(checks@),
                all == status@.items_at("statusCheckRollup"@),
                i <= checks.len(),
                first_failed(all) == first_failed(all.skip(i as int)),
            decreases checks.len() - i,
        {
            assert(all.skip(i as int).first() == json_view(checks@[i as int]));
            assert(all.skip(i as int).drop_first() =~= all.skip(i + 1));
            match failed_check_run(&checks[i]) {
                Some(id) => {
                    return Ok(id);
                },
                None => {},
            }
            i = i + 1;
        }
    }
    Err(RequestError::message("no failed GitHub Actions run found"))
}

/// The flag of `gh pr merge` for a merge strategy; without one the commits are squashed.
pub open spec fn merge_flag(strategy: Option<Seq<char>>) -> Result<Seq<char>, ErrorView> {
    match strategy {
        None => Ok("--squash"@),
        Some(strategy) => if strategy == "squash"@ {
            Ok("--squash"@)
        } else if strategy == "merge"@ {
            Ok("--merge"@)
        } else if strategy == "rebase"@ {
            Ok("--rebase"@)
        } else {
            Err(ErrorView::Message("merge strategy must be squash, merge, or rebase"@))
        },
    }
}

/// The flag of `gh pr merge` for a merge strategy.
pub fn strategy_flag(strategy: Option<&str>) -> (flag: Result<&'static str, RequestError>)
    ensures
        result_view(flag) == merge_flag(text_view(strategy)),
{
    match strategy {
        None => Ok("--squash"),
        Some(strategy) => if same_text(strategy, "squash") {
            Ok("--squash")
        } else if same_text(strategy, "merge") {
            Ok("--merge")
        } else if same_text(strategy, "rebase") {
            Ok("--rebase")
        } else {
            Err(RequestError::message("merge strategy must be squash, merge, or rebase"))
        },
    }
}

/// The body that is suggested for a pull request: what has changed, where something has.
pub open spec fn suggested_body(diff: Seq<char>) -> Seq<char> {
    if trimmed(diff).len() == 0 {
        Seq::empty()
    } else {
        "## Changes\n\n```\n"@ + trimmed(diff) + "\n```"@
    }
}

/// The body that is suggested for a pull request.
pub fn suggest_body(diff: &str) -> (body: String)
    ensures
        body@ == suggested_body(diff@),
{
    let changes = trim(diff);
    if changes.unicode_len() == 0 {
        String::new()
    } else {
        concat3("## Changes\n\n```\n", changes, "\n```")
    }
}

/// How many lines of a failure log are shown.
pub const LOG_LINES: usize = 200;

/// What is said of a branch whose checks failed: the end of the log.
pub open spec fn failure_message(branch: Seq<char>, logs: Seq<char>) -> Seq<char> {
    "CI failed on branch `"@ + branch + "`. Here are the failure logs:\n\n"@ + joined(
        last_lines(lines(logs), LOG_LINES as int),
    )
}

/// What is said of a branch whose checks failed.
pub fn describe_failure(branch: &str, logs: &str) -> (message: String)
    ensures
        message@ == failure_message(branch@, logs@),
{
    concat(
        concat3("CI failed on branch `", branch, "`. Here are the failure logs:\n\n").as_str(),
        tail(logs, LOG_LINES).as_str(),
    )
}

} // verus!
