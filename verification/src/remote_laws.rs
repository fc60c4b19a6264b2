//! Which remotes are on GitHub, and what is left of a remote without its credentials.

use vstd::prelude::*;
use crate::github::{
    authority, github_remote, holds_credentials, public_remote, scheme_length, user_info,
};
use crate::text::{
    after_last, lemma_after_last, lemma_length_before, lemma_length_before_bounds, length_before,
    small_letters, trimmed, without_trailing,
};

verus! {

/// Whether a URL starts with this, and something but slashes follows.
pub open spec fn leads_into(url: Seq<char>, start: Seq<char>) -> bool {
    start.is_prefix_of(url) && exists|i: int| start.len() <= i < url.len() && #[trigger] url[i] != '/'
}

/// A remote is on GitHub exactly if, white space aside, it starts with `git@github.com:`, or leads
/// into `github.com` by one of the protocols that `git` speaks.
pub proof fn law_github_remotes_lead_to_github(remote: Seq<char>)
    ensures
        ({
            let url = trimmed(remote);
            github_remote(remote) <==> ("git@github.com:"@.is_prefix_of(url) || leads_into(
                url,
                "git@github.com/"@,
            ) || leads_into(url, "ssh://git@github.com/"@) || leads_into(url, "https://github.com/"@)
                || leads_into(url, "http://github.com/"@) || leads_into(url, "git://github.com/"@))
        }),
{
    reveal_strlit("/");
    reveal_strlit(".git");
    reveal_strlit("git@github.com:");
    reveal_strlit("git@github.com/");
    reveal_strlit("ssh://git@github.com/");
    reveal_strlit("https://github.com/");
    reveal_strlit("http://github.com/");
    reveal_strlit("git://github.com/");
    assert("git@github.com:"@.last() == ':');
    assert("git@github.com/"@.last() == '/');
    assert("ssh://git@github.com/"@.last() == '/');
    assert("https://github.com/"@.last() == '/');
    assert("http://github.com/"@.last() == '/');
    assert("git://github.com/"@.last() == '/');
    let url = trimmed(remote);
    let bare = without_trailing(without_trailing(url, "/"@), ".git"@);
    lemma_stripped(url, "git@github.com:"@);
    lemma_stripped(url, "git@github.com/"@);
    lemma_stripped(url, "ssh://git@github.com/"@);
    lemma_stripped(url, "https://github.com/"@);
    lemma_stripped(url, "http://github.com/"@);
    lemma_stripped(url, "git://github.com/"@);
}

/// What a URL starts with, once the slashes and the `.git` at its end are gone.
proof fn lemma_stripped(url: Seq<char>, start: Seq<char>)
    requires
        start.len() > 0,
        start.last() == '/' || start.last() == ':',
    ensures
        start.is_prefix_of(without_trailing(without_trailing(url, "/"@), ".git"@)) <==> (if start.last()
            == ':' {
            start.is_prefix_of(url)
        } else {
            leads_into(url, start)
        }),
{
    reveal_strlit("/");
    reveal_strlit(".git");
    let inner = without_trailing(url, "/"@);
    let n = lemma_without_slashes(url);
    let m = lemma_without_git(inner, start);
    let bare = without_trailing(inner, ".git"@);
    if start.is_prefix_of(bare) {
        assert(forall|i: int| 0 <= i < start.len() ==> start[i] == #[trigger] bare[i]);
        assert(start =~= url.take(start.len() as int));
        if start.last() == '/' {
            assert(url[start.len() - 1] == '/');
            assert(url[n - 1] != '/');
        }
    }
    if start.is_prefix_of(url) && n >= start.len() {
        assert(start =~= inner.take(start.len() as int));
        assert(start.is_prefix_of(inner));
    }
    if start.is_prefix_of(url) && start.last() == ':' {
        assert(url[start.len() - 1] == ':');
    }
}

proof fn lemma_without_slashes(url: Seq<char>) -> (n: int)
    ensures
        0 <= n <= url.len(),
        without_trailing(url, "/"@) == url.take(n),
        forall|i: int| n <= i < url.len() ==> #[trigger] url[i] == '/',
        n > 0 ==> url[n - 1] != '/',
    decreases url.len(),
{
    reveal_strlit("/");
    if "/"@.is_suffix_of(url) {
        let rest = url.take(url.len() - 1);
        assert(url.last() == "/"@[0]);
        let n = lemma_without_slashes(rest);
        assert(rest.take(n) =~= url.take(n));
        assert forall|i: int| n <= i < url.len() implies #[trigger] url[i] == '/' by {
            if i < rest.len() {
                assert(rest[i] == url[i]);
            }
        }
        n
    } else {
        assert(url.take(url.len() as int) =~= url);
        if url.len() > 0 && url.last() == '/' {
            assert(url.subrange(url.len() - 1, url.len() as int) =~= "/"@);
        }
        url.len() as int
    }
}

proof fn lemma_without_git(url: Seq<char>, start: Seq<char>) -> (n: int)
    requires
        start.len() > 0,
        start.last() == '/' || start.last() == ':',
    ensures
        0 <= n <= url.len(),
        without_trailing(url, ".git"@) == url.take(n),
        start.is_prefix_of(url) ==> start.is_prefix_of(url.take(n)),
    decreases url.len(),
{
    reveal_strlit(".git");
    if ".git"@.is_suffix_of(url) {
        let rest = url.take(url.len() - 4);
        let n = lemma_without_git(rest, start);
        assert(rest.take(n) =~= url.take(n));
        let end = url.subrange(url.len() - 4, url.len() as int);
        assert(end =~= ".git"@);
        if start.is_prefix_of(url) {
            assert(url[start.len() - 1] == start.last());
            if start.len() > url.len() - 4 {
                let i = start.len() - 1 - (url.len() - 4);
                assert(0 <= i < 4);
                assert(end[i] == url[start.len() - 1]);
            }
            assert(start =~= rest.take(start.len() as int));
        }
        n
    } else {
        assert(url.take(url.len() as int) =~= url);
        url.len() as int
    }
}

/// A remote without credentials is recorded as it is.
pub proof fn law_other_remotes_stay_as_they_are(remote: Seq<char>)
    ensures
        !holds_credentials(remote) ==> public_remote(remote) == remote,
{
    if !holds_credentials(remote) && scheme_length(remote) > 0 && authority(remote).contains('@') {
        let scheme = scheme_length(remote);
        let place = authority(remote);
        let user = user_info(remote);
        assert forall|i: int| 0 <= i < user.len() implies user[i] != ':' by {
            assert(user.contains(user[i]));
        }
        lemma_length_before(user, ':', user.len() as int);
        assert(user.take(user.len() as int) =~= user);
        lemma_split(place);
        lemma_place(remote);
        assert(public_remote(remote) =~= remote);
    }
}

/// What stands before the last `@` of a text that has one, and behind it.
proof fn lemma_split(place: Seq<char>)
    requires
        place.contains('@'),
    ensures
        ({
            let host = after_last(place, '@');
            &&& host.len() < place.len()
            &&& place == place.take(place.len() - host.len() - 1) + seq!['@'] + host
        }),
    decreases place.len(),
{
    if place.last() == '@' {
        assert(place =~= place.take(place.len() - 1) + seq!['@'] + Seq::<char>::empty());
    } else {
        let front = place.drop_last();
        let at = choose|i: int| 0 <= i < place.len() && place[i] == '@';
        assert(front[at] == '@');
        lemma_split(front);
        let host = after_last(front, '@');
        assert(after_last(place, '@') == host.push(place.last()));
        assert(place.take(place.len() - (host.len() + 1) - 1) =~= front.take(
            front.len() - host.len() - 1,
        ));
        assert(place =~= front.push(place.last()));
        assert(place =~= place.take(place.len() - (host.len() + 1) - 1) + seq!['@'] + host.push(
            place.last(),
        ));
    }
}

/// A URL is its scheme, what stands before its path, and the path.
proof fn lemma_place(remote: Seq<char>)
    requires
        scheme_length(remote) > 0,
    ensures
        ({
            let scheme = scheme_length(remote);
            let place = authority(remote);
            &&& scheme + place.len() <= remote.len()
            &&& remote == remote.take(scheme) + place + remote.skip(scheme + place.len())
        }),
{
    let scheme = scheme_length(remote);
    let rest = remote.skip(scheme);
    lemma_length_before_bounds(remote, ':');
    lemma_length_before_bounds(rest, '/');
    let place = authority(remote);
    assert(remote =~= remote.take(scheme) + place + remote.skip(scheme + place.len()));
}

/// A URL loses its password and, where it is one of the web, its user; everything else stays: the
/// scheme, the host, the path, and any other user.
pub proof fn law_urls_lose_nothing_but_credentials(
    scheme: Seq<char>,
    user: Seq<char>,
    password: Option<Seq<char>>,
    host: Seq<char>,
    path: Seq<char>,
)
    requires
        scheme.len() > 0 && !scheme.contains(':') && !scheme.contains('/'),
        !user.contains(':') && !user.contains('/'),
        password matches Some(password) ==> !password.contains('/'),
        !host.contains('@') && !host.contains('/'),
        path.len() > 0 ==> path[0] == '/',
    ensures
        ({
            let info = match password {
                Some(password) => user + seq![':'] + password,
                None => user,
            };
            let web = small_letters(scheme) == "https"@ || small_letters(scheme) == "http"@;
            public_remote(scheme + seq![':', '/', '/'] + info + seq!['@'] + host + path) == scheme + seq![
                ':',
                '/',
                '/',
            ] + (if web {
                Seq::empty()
            } else {
                user + seq!['@']
            }) + host + path
        }),
{
    let info = match password {
        Some(password) => user + seq![':'] + password,
        None => user,
    };
    let place = info + seq!['@'] + host;
    let front = scheme + seq![':', '/', '/'];
    let remote = scheme + seq![':', '/', '/'] + info + seq!['@'] + host + path;
    assert forall|i: int| 0 <= i < place.len() implies place[i] != '/' by {
        lemma_no_slash(user, password, host, i);
    }
    lemma_taken_apart(scheme, info, host, path);
    assert forall|i: int| 0 <= i < user.len() implies info[i] != ':' by {
        assert(info[i] == user[i]);
        assert(user.contains(user[i]));
    }
    lemma_length_before(info, ':', user.len() as int);
    assert(info.take(user.len() as int) =~= user);
    assert(user.push('@') =~= user + seq!['@']);
}

/// The parts of a URL.
proof fn lemma_taken_apart(
    scheme: Seq<char>,
    info: Seq<char>,
    host: Seq<char>,
    path: Seq<char>,
)
    requires
        scheme.len() > 0 && !scheme.contains(':') && !scheme.contains('/'),
        !host.contains('@'),
        path.len() > 0 ==> path[0] == '/',
        forall|i: int|
            0 <= i < (info + seq!['@'] + host).len() ==> (#[trigger] (info + seq!['@'] + host)[i]) != '/',
    ensures
        ({
            let remote = scheme + seq![':', '/', '/'] + info + seq!['@'] + host + path;
            let place = info + seq!['@'] + host;
            let n = scheme.len() + 3int;
            &&& scheme_length(remote) == n
            &&& remote.take(length_before(remote, ':')) == scheme
            &&& authority(remote) == place && place.contains('@')
            &&& after_last(place, '@') == host
            &&& user_info(remote) == info
            &&& remote.take(n) == scheme + seq![':', '/', '/']
            &&& remote.skip(n + place.len()) == path
        }),
{
    let remote = scheme + seq![':', '/', '/'] + info + seq!['@'] + host + path;
    let place = info + seq!['@'] + host;
    let n = scheme.len() as int;
    assert forall|i: int| 0 <= i < n implies remote[i] != ':' by {
        assert(remote[i] == scheme[i]);
        assert(scheme.contains(scheme[i]));
    }
    lemma_length_before(remote, ':', n);
    assert(remote.take(n) =~= scheme);
    assert(scheme_length(remote) == n + 3);
    let rest = remote.skip(n + 3);
    assert(rest =~= place + path);
    assert forall|i: int| 0 <= i < place.len() implies rest[i] != '/' by {
        assert(rest[i] == place[i]);
    }
    lemma_length_before(rest, '/', place.len() as int);
    assert(authority(remote) =~= place);
    assert(place[info.len() as int] == '@');
    assert forall|i: int| info.len() + 1 <= i < place.len() implies place[i] != '@' by {
        assert(place[i] == host[i - info.len() - 1]);
        assert(host.contains(host[i - info.len() - 1]));
    }
    lemma_after_last(place, '@', info.len() + 1int);
    assert(after_last(place, '@') =~= host);
    assert(user_info(remote) =~= info);
    assert(remote.take(n + 3) =~= scheme + seq![':', '/', '/']);
    assert(remote.skip(n + 3 + place.len()) =~= path);
}

proof fn lemma_no_slash(user: Seq<char>, password: Option<Seq<char>>, host: Seq<char>, i: int)
    requires
        !user.contains('/'),
        password matches Some(password) ==> !password.contains('/'),
        !host.contains('/'),
    ensures
        ({
            let info = match password {
                Some(password) => user + seq![':'] + password,
                None => user,
            };
            let place = info + seq!['@'] + host;
            0 <= i < place.len() ==> place[i] != '/'
        }),
{
    let info = match password {
        Some(password) => user + seq![':'] + password,
        None => user,
    };
    let place = info + seq!['@'] + host;
    if 0 <= i < user.len() {
        assert(place[i] == user[i] && user.contains(user[i]));
    } else if user.len() <= i < info.len() {
        let password = password->Some_0;
        if i > user.len() {
            let j = i - user.len() - 1;
            assert(place[i] == password[j] && password.contains(password[j]));
        }
    } else if info.len() < i < place.len() {
        let j = i - info.len() - 1;
        assert(place[i] == host[j] && host.contains(host[j]));
    }
}

} // verus!
