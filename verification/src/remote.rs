//! Remote descriptors: `.deploy/remotes/<env>` holds `user@host:app-name.domain`,
//! where the app name runs up to the first `.` and the domain is the rest.

use vstd::prelude::*;
use crate::sorting::{law_sorted_indices, permutation_of, sort_indices, sorted_indices, str_lt};
use crate::text::{
    chars_of, find_char, is_whitespace, is_ws, owned, push_str, split_once, string_of_range,
    clone_opt_string,
};
use crate::types::{Environment, EnvironmentView};

verus! {

/// The text without any whitespace character.
pub open spec fn remove_ws(s: Seq<char>) -> Seq<char>
    decreases s.len(),
{
    if s.len() == 0 {
        seq![]
    } else if is_ws(s.last()) {
        remove_ws(s.drop_last())
    } else {
        remove_ws(s.drop_last()).push(s.last())
    }
}

/// The environment described by a remote file, or why it is refused.
pub open spec fn spec_parse_remote(env: Seq<char>, raw: Seq<char>) -> Result<EnvironmentView, Seq<char>> {
    let r = remove_ws(raw);
    if r.len() == 0 {
        Err("remote file "@ + env + " is empty"@)
    } else {
        match split_once(r, ':') {
            None => Err("remote '"@ + env + "' missing ':' separator"@),
            Some((ssh, app)) => match split_once(ssh, '@') {
                None => Err("remote '"@ + env + "' ssh part missing '@'"@),
                Some((u, h)) => {
                    let (name, domain) = match split_once(app, '.') {
                        Some((n, d)) => (n, Some(d)),
                        None => (app, None),
                    };
                    Ok(
                        EnvironmentView {
                            name: env,
                            ssh_user: u,
                            ssh_host: h,
                            app_name: name,
                            domain: domain,
                            app_dir: "/opt/apps/"@ + name,
                        },
                    )
                },
            },
        }
    }
}

/// Parses the contents of the remote file of environment `env_name`.
pub fn parse_remote_file(env_name: &str, raw: &str) -> (r: Result<Environment, String>)
    ensures
        match r {
            Ok(e) => spec_parse_remote(env_name@, raw@) == Ok::<EnvironmentView, Seq<char>>(e@),
            Err(m) => spec_parse_remote(env_name@, raw@) == Err::<EnvironmentView, Seq<char>>(m@),
        },
{
    let v = chars_of(raw);
    let mut f: Vec<char> = Vec::new();
    let mut i: usize = 0;
    while i < v.len()
        invariant
            i <= v@.len(),
            v@ == raw@,
            f@ == remove_ws(v@.take(i as int)),
        decreases v.len() - i,
    {
        assert(v@.take(i + 1).drop_last() =~= v@.take(i as int));
        if !is_whitespace(v[i]) {
            f.push(v[i]);
        }
        i += 1;
    }
    assert(v@.take(v@.len() as int) =~= v@);
    let n = f.len();
    if n == 0 {
        let mut m = owned("remote file ");
        push_str(&mut m, env_name);
        push_str(&mut m, " is empty");
        return Err(m);
    }
    assert(f@.subrange(0, n as int) =~= f@);
    let c = find_char(&f, 0, n, ':');
    if c == n {
        let mut m = owned("remote '");
        push_str(&mut m, env_name);
        push_str(&mut m, "' missing ':' separator");
        return Err(m);
    }
    assert(f@.take(c as int) =~= f@.subrange(0, c as int));
    assert(f@.skip(c + 1) =~= f@.subrange(c + 1, n as int));
    let at = find_char(&f, 0, c, '@');
    if at == c {
        let mut m = owned("remote '");
        push_str(&mut m, env_name);
        push_str(&mut m, "' ssh part missing '@'");
        return Err(m);
    }
    assert(f@.subrange(0, c as int).take(at as int) =~= f@.subrange(0, at as int));
    assert(f@.subrange(0, c as int).skip(at + 1) =~= f@.subrange(at + 1, c as int));
    let dot = find_char(&f, c + 1, n, '.');
    let app_end = dot;
    let app_name = string_of_range(&f, c + 1, app_end);
    let domain = if dot < n {
        assert(f@.subrange(c + 1, n as int).take(dot - c - 1) =~= f@.subrange(c + 1, dot as int));
        assert(f@.subrange(c + 1, n as int).skip(dot - c) =~= f@.subrange(dot + 1, n as int));
        Some(string_of_range(&f, dot + 1, n))
    } else {
        None
    };
    let mut app_dir = owned("/opt/apps/");
    push_str(&mut app_dir, app_name.as_str());
    Ok(Environment {
        name: owned(env_name),
        ssh_user: string_of_range(&f, 0, at),
        ssh_host: string_of_range(&f, at + 1, c),
        app_name,
        domain,
        app_dir,
    })
}

impl Environment {
    /// A copy of this environment.
    pub fn duplicate(&self) -> (r: Environment)
        ensures
            r@ == self@,
    {
        Environment {
            name: self.name.clone(),
            ssh_user: self.ssh_user.clone(),
            ssh_host: self.ssh_host.clone(),
            app_name: self.app_name.clone(),
            domain: clone_opt_string(&self.domain),
            app_dir: self.app_dir.clone(),
        }
    }
}

pub open spec fn env_views(s: Seq<Environment>) -> Seq<EnvironmentView> {
    s.map_values(|e: Environment| e@)
}

/// The environments in stable order of their names.
pub open spec fn sort_envs(es: Seq<EnvironmentView>) -> Seq<EnvironmentView> {
    let idx = sorted_indices(es.map_values(|e: EnvironmentView| e.name));
    idx.map_values(|i: int| es[i])
}

/// Orders environments by name, keeping the order of equal names.
pub fn sort_by_name(envs: Vec<Environment>) -> (r: Vec<Environment>)
    ensures
        env_views(r@) == sort_envs(env_views(envs@)),
{
    let mut names: Vec<String> = Vec::new();
    let mut i: usize = 0;
    while i < envs.len()
        invariant
            i <= envs@.len(),
            names@.map_values(|s: String| s@) == env_views(envs@).take(i as int).map_values(|e: EnvironmentView| e.name),
        decreases envs.len() - i,
    {
        let ghost prev = names@;
        names.push(envs[i].name.clone());
        assert(names@.map_values(|s: String| s@) =~= prev.map_values(|s: String| s@).push(envs@[i as int]@.name));
        assert(env_views(envs@).take(i + 1).map_values(|e: EnvironmentView| e.name) =~= env_views(envs@).take(i as int).map_values(|e: EnvironmentView| e.name).push(envs@[i as int]@.name));
        assert(names@.map_values(|s: String| s@) =~= env_views(envs@).take(i + 1).map_values(|e: EnvironmentView| e.name));
        i += 1;
    }
    assert(env_views(envs@).take(envs@.len() as int) =~= env_views(envs@));
    let idx = sort_indices(&names);
    let ghost target = sort_envs(env_views(envs@));
    let mut out: Vec<Environment> = Vec::new();
    let mut k: usize = 0;
    while k < idx.len()
        invariant
            k <= idx@.len() == envs@.len(),
            names@.map_values(|s: String| s@) == env_views(envs@).map_values(|e: EnvironmentView| e.name),
            forall|j: int| 0 <= j < idx@.len() ==> (idx@[j] as int) == sorted_indices(names@.map_values(|s: String| s@))[j],
            forall|j: int| 0 <= j < idx@.len() ==> idx@[j] < envs@.len(),
            target == sort_envs(env_views(envs@)),
            env_views(out@) == target.take(k as int),
        decreases idx.len() - k,
    {
        let e = envs[idx[k]].duplicate();
        let ghost prev = out@;
        out.push(e);
        proof {
            crate::sorting::lemma_sorted_indices(names@.map_values(|s: String| s@));
            assert(target[k as int] == env_views(envs@)[idx@[k as int] as int]);
            assert(env_views(out@) =~= env_views(prev).push(target[k as int]));
            assert(target.take(k + 1) =~= target.take(k as int).push(target[k as int]));
            assert(env_views(out@) =~= target.take(k + 1));
        }
        k += 1;
    }
    proof {
        crate::sorting::lemma_sorted_indices(names@.map_values(|s: String| s@));
        assert(target.take(k as int) =~= target);
    }
    out
}


/// The environments described by the remote files `(file name, contents)`,
/// in file order: hidden files and files that do not parse are skipped.
pub open spec fn remote_envs(files: Seq<(Seq<char>, Seq<char>)>) -> Seq<EnvironmentView>
    decreases files.len(),
{
    if files.len() == 0 {
        seq![]
    } else {
        let k = remote_envs(files.drop_last());
        let (name, raw) = files.last();
        if name.len() > 0 && name[0] == '.' {
            k
        } else {
            match spec_parse_remote(name, raw) {
                Ok(e) => k.push(e),
                Err(_) => k,
            }
        }
    }
}

pub open spec fn file_views(files: Seq<(String, String)>) -> Seq<(Seq<char>, Seq<char>)> {
    files.map_values(|f: (String, String)| (f.0@, f.1@))
}

/// The environments of a project from its remote files, ordered by name.
pub fn environments_from_files(files: &Vec<(String, String)>) -> (r: Vec<Environment>)
    ensures
        env_views(r@) == sort_envs(remote_envs(file_views(files@))),
{
    let ghost fv = file_views(files@);
    let mut envs: Vec<Environment> = Vec::new();
    let mut i: usize = 0;
    while i < files.len()
        invariant
            i <= files@.len(),
            fv == file_views(files@),
            env_views(envs@) == remote_envs(fv.take(i as int)),
        decreases files.len() - i,
    {
        let (name, raw) = &files[i];
        assert(fv.take(i + 1).drop_last() =~= fv.take(i as int));
        assert(fv.take(i + 1).last() == (name@, raw@));
        let nv = chars_of(name.as_str());
        if !(nv.len() > 0 && nv[0] == '.') {
            match parse_remote_file(name.as_str(), raw.as_str()) {
                Ok(e) => {
                    let ghost prev = envs@;
                    let ghost ev = e@;
                    envs.push(e);
                    assert(env_views(envs@) =~= env_views(prev).push(ev));
                },
                Err(_) => {},
            }
        }
        i += 1;
    }
    assert(fv.take(files@.len() as int) =~= fv);
    sort_by_name(envs)
}


/// The environments come out ordered by name (equal names keep their order), each
/// one of the input exactly once.
pub proof fn law_sort_envs(xs: Seq<EnvironmentView>)
    ensures
        sort_envs(xs).len() == xs.len(),
        forall|i: int, j: int| 0 <= i < j < xs.len()
            ==> !str_lt(#[trigger] sort_envs(xs)[j].name, #[trigger] sort_envs(xs)[i].name),
        exists|idx: Seq<int>| permutation_of(idx, xs.len())
            && forall|i: int| 0 <= i < xs.len() ==> #[trigger] sort_envs(xs)[i] == xs[idx[i]],
{
    let keys = xs.map_values(|x: EnvironmentView| x.name);
    let idx = sorted_indices(keys);
    law_sorted_indices(keys);
    let r = sort_envs(xs);
    assert forall|i: int| 0 <= i < xs.len() implies #[trigger] r[i] == xs[idx[i]] by {}
    assert forall|i: int, j: int| 0 <= i < j < xs.len() implies !str_lt(#[trigger] r[j].name, #[trigger] r[i].name) by {
        assert(keys[idx[i]] == r[i].name);
        assert(keys[idx[j]] == r[j].name);
    }
}

} // verus!
