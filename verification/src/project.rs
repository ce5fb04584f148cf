//! Loading a project: its name, its git remote in `<owner>/<repo>` form, and
//! its environments.

use vstd::prelude::*;
use crate::text::{
    chars_of, ends_with, file_name, find_char, first_index, lines, next_line, path_file_name,
    push_str, range_ends_with, range_starts_with, rfind_char, last_index, split_once, starts_with,
    string_of_range, trim, trim_range,
};
use crate::types::{Environment, Project, opt_view};

verus! {

/// What follows the scheme of a URL: any `user:pass@` part is dropped, then
/// the host up to the first `/`; what remains is the repository path.
pub open spec fn repo_path_after_scheme(rest: Seq<char>) -> Seq<char> {
    let no_auth = rest.skip(last_index(rest, '@') + 1);
    match split_once(no_auth, '/') {
        Some((_, path)) => path,
        None => no_auth,
    }
}

/// A git remote URL reduced to its repository path: for scp-style
/// `user@host:path` the path after the first `:`; for `https://`, `http://`,
/// `git://` and `ssh://` URLs the path after the host; otherwise the URL itself.
pub open spec fn spec_normalize_git_url(u: Seq<char>) -> Seq<char> {
    let at = first_index(u, '@');
    let colon = first_index(u, ':');
    if at >= 0 && colon >= 0 && at < colon {
        u.skip(colon + 1)
    } else if starts_with(u, "https://"@) {
        repo_path_after_scheme(u.skip("https://"@.len() as int))
    } else if starts_with(u, "http://"@) {
        repo_path_after_scheme(u.skip("http://"@.len() as int))
    } else if starts_with(u, "git://"@) {
        repo_path_after_scheme(u.skip("git://"@.len() as int))
    } else if starts_with(u, "ssh://"@) {
        repo_path_after_scheme(u.skip("ssh://"@.len() as int))
    } else {
        u
    }
}

fn repo_path_range(v: &Vec<char>, lo: usize) -> (r: String)
    requires
        lo <= v@.len(),
    ensures
        r@ == repo_path_after_scheme(v@.skip(lo as int)),
{
    let n = v.len();
    let ghost rest = v@.skip(lo as int);
    assert(rest =~= v@.subrange(lo as int, n as int));
    let a = match rfind_char(v, lo, n, '@') {
        Some(p) => p + 1,
        None => lo,
    };
    let ghost no_auth = rest.skip(last_index(rest, '@') + 1);
    assert(no_auth =~= v@.subrange(a as int, n as int));
    let s = find_char(v, a, n, '/');
    if s < n {
        assert(no_auth.skip(s - a + 1) =~= v@.subrange(s + 1, n as int));
        string_of_range(v, s + 1, n)
    } else {
        string_of_range(v, a, n)
    }
}

/// Reduces a git remote URL to `<owner>/<repo>` (or a longer group path).
pub fn normalize_git_url(url: &str) -> (r: String)
    ensures
        r@ == spec_normalize_git_url(url@),
{
    let v = chars_of(url);
    let n = v.len();
    assert(v@.subrange(0, n as int) =~= v@);
    let at = find_char(&v, 0, n, '@');
    let colon = find_char(&v, 0, n, ':');
    if at < n && colon < n && at < colon {
        assert(v@.skip(colon + 1) =~= v@.subrange(colon + 1, n as int));
        return string_of_range(&v, colon + 1, n);
    }
    let https = chars_of("https://");
    if range_starts_with(&v, 0, n, &https) {
        return repo_path_range(&v, https.len());
    }
    let http = chars_of("http://");
    if range_starts_with(&v, 0, n, &http) {
        return repo_path_range(&v, http.len());
    }
    let git = chars_of("git://");
    if range_starts_with(&v, 0, n, &git) {
        return repo_path_range(&v, git.len());
    }
    let ssh = chars_of("ssh://");
    if range_starts_with(&v, 0, n, &ssh) {
        return repo_path_range(&v, ssh.len());
    }
    string_of_range(&v, 0, n)
}


/// `s` without any run of `c` at its end, as `str::trim_end_matches` with a char.
pub open spec fn trim_end_char(s: Seq<char>, c: char) -> Seq<char>
    decreases s.len(),
{
    if s.len() > 0 && s.last() == c {
        trim_end_char(s.drop_last(), c)
    } else {
        s
    }
}

/// `s` without any repetition of `p` at its end, as `str::trim_end_matches`
/// with a non-empty string.
pub open spec fn trim_end_suffix(s: Seq<char>, p: Seq<char>) -> Seq<char>
    decreases s.len(),
{
    if p.len() > 0 && ends_with(s, p) {
        trim_end_suffix(s.take(s.len() - p.len()), p)
    } else {
        s
    }
}

/// The URL of a `url = ` line, cleaned of whitespace, trailing slashes and a
/// `.git` suffix.
pub open spec fn clean_remote_url(raw: Seq<char>) -> Seq<char> {
    trim_end_suffix(trim_end_char(trim(raw), '/'), ".git"@)
}

/// The repository named by the first `url = ` line of a git config, reduced
/// to its path.
pub open spec fn spec_git_repo(ls: Seq<Seq<char>>) -> Option<Seq<char>>
    decreases ls.len(),
{
    if ls.len() == 0 {
        None
    } else {
        let t = trim(ls[0]);
        if starts_with(t, "url = "@) {
            Some(spec_normalize_git_url(clean_remote_url(t.skip("url = "@.len() as int))))
        } else {
            spec_git_repo(ls.drop_first())
        }
    }
}

/// The cleaned URL `v[lo..hi]` (see [`clean_remote_url`]) as bounds.
fn clean_url_range(v: &Vec<char>, lo: usize, hi: usize) -> (r: (usize, usize))
    requires
        lo <= hi <= v@.len(),
    ensures
        lo <= r.0 <= r.1 <= hi,
        v@.subrange(r.0 as int, r.1 as int) == clean_remote_url(v@.subrange(lo as int, hi as int)),
{
    let (a, b0) = trim_range(v, lo, hi);
    let mut b = b0;
    while b > a && v[b - 1] == '/'
        invariant
            lo <= a <= b <= b0 <= hi <= v@.len(),
            trim_end_char(v@.subrange(a as int, b0 as int), '/') == trim_end_char(v@.subrange(a as int, b as int), '/'),
        decreases b - a,
    {
        assert(v@.subrange(a as int, b as int).drop_last() =~= v@.subrange(a as int, b - 1));
        b -= 1;
    }
    let ghost t1 = v@.subrange(a as int, b as int);
    let suffix = chars_of(".git");
    proof {
        reveal_strlit(".git");
    }
    let mut c = b;
    while range_ends_with(v, a, c, &suffix)
        invariant
            lo <= a <= c <= b <= hi <= v@.len(),
            suffix@ == ".git"@,
            suffix@.len() > 0,
            trim_end_suffix(t1, ".git"@) == trim_end_suffix(v@.subrange(a as int, c as int), ".git"@),
        decreases c - a,
    {
        assert(v@.subrange(a as int, c as int).take(c - a - suffix@.len()) =~= v@.subrange(a as int, c - suffix@.len()));
        c -= suffix.len();
    }
    (a, c)
}

/// The repository of a git config file in `<owner>/<repo>` form: taken from
/// its first `url = ` line, or `None` when it has none.
pub fn git_repo_from_config(content: &str) -> (r: Option<String>)
    ensures
        opt_view(r) == spec_git_repo(lines(content@)),
{
    let v = chars_of(content);
    let prefix = chars_of("url = ");
    let mut start: usize = 0;
    assert(v@.skip(0) =~= v@);
    while start < v.len()
        invariant
            start <= v@.len(),
            v@ == content@,
            prefix@ == "url = "@,
            spec_git_repo(lines(content@)) == spec_git_repo(lines(v@.skip(start as int))),
        decreases v.len() - start,
    {
        let (e, nx) = next_line(&v, start);
        let ghost l = v@.subrange(start as int, e as int);
        assert((seq![l] + lines(v@.skip(nx as int))).drop_first() =~= lines(v@.skip(nx as int)));
        assert((seq![l] + lines(v@.skip(nx as int)))[0] == l);
        let (a, b) = trim_range(&v, start, e);
        if range_starts_with(&v, a, b, &prefix) {
            assert(v@.subrange(a as int, b as int).skip(prefix@.len() as int) =~= v@.subrange(a + prefix@.len(), b as int));
            let (c0, c1) = clean_url_range(&v, a + prefix.len(), b);
            let url = string_of_range(&v, c0, c1);
            return Some(normalize_git_url(url.as_str()));
        }
        start = nx;
    }
    assert(v@.skip(v@.len() as int) =~= Seq::<char>::empty());
    None
}

/// The name shown for a project: the last component of its path, or
/// `project` when the path has none.
pub open spec fn project_name(path: Seq<char>) -> Seq<char> {
    match path_file_name(path) {
        Some(n) => n,
        None => "project"@,
    }
}

/// Builds a project from its canonical path. The project needs a `.deploy/`
/// directory; its environments and git config are what was read from it.
/// `name_is_text` says whether the last component of the path on disk is
/// valid UTF-8; when it is not, `path` holds it with replacement characters
/// and the project is named `project`.
pub fn load_project(
    path: &str,
    name_is_text: bool,
    has_deploy_dir: bool,
    remotes: Vec<Environment>,
    git_config: Option<&str>,
) -> (r: Result<Project, String>)
    ensures
        match r {
            Ok(p) => {
                &&& has_deploy_dir
                &&& p.path@ == path@
                &&& p.name@ == if name_is_text { project_name(path@) } else { "project"@ }
                &&& opt_view(p.git_repo) == match git_config {
                    Some(c) => spec_git_repo(lines(c@)),
                    None => None,
                }
                &&& p.remotes@ == remotes@
            },
            Err(e) => !has_deploy_dir && e@ == "no .deploy/ directory at "@ + path@,
        },
{
    if !has_deploy_dir {
        let mut msg = String::from_str("no .deploy/ directory at ");
        push_str(&mut msg, path);
        return Err(msg);
    }
    let name = if name_is_text {
        match file_name(path) {
            Some(n) => n,
            None => String::from_str("project"),
        }
    } else {
        String::from_str("project")
    };
    let git_repo = match git_config {
        Some(c) => git_repo_from_config(c),
        None => None,
    };
    Ok(Project { path: String::from_str(path), name, git_repo, remotes })
}

/// The URL schemes whose remotes are reduced to the path after the host.
pub open spec fn path_scheme(s: Seq<char>) -> bool {
    s == "https://"@ || s == "http://"@ || s == "git://"@ || s == "ssh://"@
}

/// `u` does not start with `p` when they differ at a position both have.
proof fn lemma_not_prefix(u: Seq<char>, p: Seq<char>, i: int)
    requires
        0 <= i < p.len(),
        i < u.len(),
        u[i] != p[i],
    ensures
        !starts_with(u, p),
{
    if starts_with(u, p) {
        assert(u.take(p.len() as int)[i] == u[i]);
    }
}

/// The path after the host of `<host>/<path>`, with an optional `<auth>@`
/// in front, when neither the host nor the path holds `@` and the host
/// holds no `/`.
proof fn lemma_repo_path(rest: Seq<char>, k: int, host: Seq<char>, path: Seq<char>)
    requires
        -1 <= k < rest.len(),
        k >= 0 ==> rest[k] == '@',
        rest.skip(k + 1) == host + "/"@ + path,
        "/"@ == seq!['/'],
        forall|j: int| 0 <= j < host.len() ==> host[j] != '@' && host[j] != '/',
        forall|j: int| 0 <= j < path.len() ==> path[j] != '@',
    ensures
        repo_path_after_scheme(rest) == path,
{
    let tail = rest.skip(k + 1);
    let hs = host + "/"@;
    assert(hs.len() == host.len() + 1);
    assert(tail == hs + path);
    crate::text::lemma_last_index(rest, '@');
    let li = last_index(rest, '@');
    assert forall|j: int| k < j < rest.len() implies rest[j] != '@' by {
        assert(rest[j] == tail[j - k - 1]);
        let m = j - k - 1;
        if m < host.len() {
            assert(tail[m] == hs[m]);
            assert(hs[m] == host[m]);
        } else if m == host.len() {
            assert(tail[m] == hs[m]);
        } else {
            assert(tail[m] == path[m - hs.len()]);
        }
    }
    if li > k {
        assert(rest[li] != '@');
    }
    if li < k {
        assert(rest[k] != '@');
    }
    assert(li == k);
    let no_auth = rest.skip(li + 1);
    assert(no_auth[host.len() as int] == '/');
    assert forall|j: int| 0 <= j < no_auth.len() && j < host.len() implies no_auth[j] != '/' by {
        assert(no_auth[j] == host[j]);
    }
    crate::text::lemma_first_index_at(no_auth, '/', host.len() as int);
    assert(no_auth.take(host.len() as int) =~= host);
    assert(no_auth.skip(host.len() as int + 1) =~= path);
}

/// A remote URL with one of the schemes `https://`, `http://`, `git://` or
/// `ssh://`, written `<scheme><host>/<path>` or `<scheme><auth>@<host>/<path>`,
/// normalises to `<path>`: the scheme, any credentials and the host are
/// dropped, whatever the scheme.
pub proof fn law_normalize_scheme_url(scheme: Seq<char>, auth: Seq<char>, host: Seq<char>, path: Seq<char>)
    requires
        path_scheme(scheme),
        forall|j: int| 0 <= j < host.len() ==> host[j] != '@' && host[j] != '/',
        forall|j: int| 0 <= j < path.len() ==> path[j] != '@',
    ensures
        spec_normalize_git_url(scheme + host + "/"@ + path) == path,
        spec_normalize_git_url(scheme + auth + "@"@ + host + "/"@ + path) == path,
{
    reveal_strlit("/");
    reveal_strlit("@");
    reveal_strlit("https://");
    reveal_strlit("http://");
    reveal_strlit("git://");
    reveal_strlit("ssh://");
    assert("https://"@ =~= seq!['h', 't', 't', 'p', 's', ':', '/', '/']);
    assert("http://"@ =~= seq!['h', 't', 't', 'p', ':', '/', '/']);
    assert("git://"@ =~= seq!['g', 'i', 't', ':', '/', '/']);
    assert("ssh://"@ =~= seq!['s', 's', 'h', ':', '/', '/']);
    assert("/"@ =~= seq!['/']);
    let r1 = host + "/"@ + path;
    let r2 = auth + "@"@ + host + "/"@ + path;
    assert(r2.skip(auth.len() as int + 1) =~= r1);
    assert(r1.skip(0) =~= r1);
    lemma_scheme_url(scheme, r1, -1, host, path);
    lemma_scheme_url(scheme, r2, auth.len() as int, host, path);
    assert(scheme + host + "/"@ + path =~= scheme + r1);
    assert(scheme + auth + "@"@ + host + "/"@ + path =~= scheme + r2);
}

/// One URL of the law above, the text after its scheme being `rest`.
proof fn lemma_scheme_url(scheme: Seq<char>, rest: Seq<char>, k: int, host: Seq<char>, path: Seq<char>)
    requires
        path_scheme(scheme),
        "https://"@ == seq!['h', 't', 't', 'p', 's', ':', '/', '/'],
        "http://"@ == seq!['h', 't', 't', 'p', ':', '/', '/'],
        "git://"@ == seq!['g', 'i', 't', ':', '/', '/'],
        "ssh://"@ == seq!['s', 's', 'h', ':', '/', '/'],
        "/"@ == seq!['/'],
        -1 <= k < rest.len(),
        k >= 0 ==> rest[k] == '@',
        rest.skip(k + 1) == host + "/"@ + path,
        forall|j: int| 0 <= j < host.len() ==> host[j] != '@' && host[j] != '/',
        forall|j: int| 0 <= j < path.len() ==> path[j] != '@',
    ensures
        spec_normalize_git_url(scheme + rest) == path,
{
    let u = scheme + rest;
    let c = scheme.len() - 3;
    assert(u[c] == ':');
    crate::text::lemma_first_index(u, ':');
    crate::text::lemma_first_index(u, '@');
    let colon = first_index(u, ':');
    let at = first_index(u, '@');
    assert(0 <= colon <= c);
    if at >= 0 && at < colon {
        assert(u[at] == scheme[at]);
    }
    assert(u.take(scheme.len() as int) =~= scheme);
    assert(u.skip(scheme.len() as int) =~= rest);
    lemma_repo_path(rest, k, host, path);
    if scheme == "http://"@ {
        lemma_not_prefix(u, "https://"@, 4);
    } else if scheme == "git://"@ {
        lemma_not_prefix(u, "https://"@, 0);
        lemma_not_prefix(u, "http://"@, 0);
    } else if scheme == "ssh://"@ {
        lemma_not_prefix(u, "https://"@, 0);
        lemma_not_prefix(u, "http://"@, 0);
        lemma_not_prefix(u, "git://"@, 0);
    }
}

/// An scp-style remote `<user>@<host>:<path>` normalises to `<path>`.
pub proof fn law_normalize_scp_url(user: Seq<char>, host: Seq<char>, path: Seq<char>)
    requires
        forall|j: int| 0 <= j < user.len() ==> user[j] != '@' && user[j] != ':',
        forall|j: int| 0 <= j < host.len() ==> host[j] != ':',
    ensures
        spec_normalize_git_url(user + "@"@ + host + ":"@ + path) == path,
{
    reveal_strlit("@");
    reveal_strlit(":");
    assert("@"@ =~= seq!['@']);
    assert(":"@ =~= seq![':']);
    let u = user + "@"@ + host + ":"@ + path;
    let at = user.len() as int;
    let colon: int = user.len() as int + 1 + host.len() as int;
    assert(u[at] == '@');
    assert(u[colon] == ':');
    assert forall|j: int| 0 <= j < u.len() && j < at implies u[j] != '@' by {
        assert(u[j] == user[j]);
    }
    assert forall|j: int| 0 <= j < u.len() && j < colon implies u[j] != ':' by {
        if j < at {
            assert(u[j] == user[j]);
        } else if j > at {
            assert(u[j] == host[j - at - 1]);
        }
    }
    crate::text::lemma_first_index_at(u, '@', at);
    crate::text::lemma_first_index_at(u, ':', colon);
    assert(u.skip(colon + 1) =~= path);
}

} // verus!
