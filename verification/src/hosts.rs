//! `~/.ssh/config` host aliases: a minimal parser that walks `Host` blocks
//! and collects the settings the app shows.

use vstd::prelude::*;
use crate::text::{
    ascii_lower, ascii_lower_str, chars_of, find_char, first_index, first_where, is_whitespace,
    is_ws, lemma_first_where_at, lines, next_line, next_word, parse_u16_range, spec_parse_u16,
    string_of_range, trim, trim_range, to_ascii_lower_char, words, chars_eq_str, clone_opt_string,
    str_eq,
};
use crate::types::opt_view;

verus! {

/// One `Host` alias from `~/.ssh/config` with the settings of its block.
#[derive(Debug, Clone)]
pub struct SshConfigHost {
    pub alias: String,
    pub user: Option<String>,
    pub hostname: Option<String>,
    pub port: Option<u16>,
    pub identity_file: Option<String>,
    pub proxy_jump: Option<String>,
}

/// The mathematical value of an [`SshConfigHost`].
pub struct HostView {
    pub alias: Seq<char>,
    pub user: Option<Seq<char>>,
    pub hostname: Option<Seq<char>>,
    pub port: Option<u16>,
    pub identity_file: Option<Seq<char>>,
    pub proxy_jump: Option<Seq<char>>,
}

impl View for SshConfigHost {
    type V = HostView;

    open spec fn view(&self) -> HostView {
        HostView {
            alias: self.alias@,
            user: opt_view(self.user),
            hostname: opt_view(self.hostname),
            port: self.port,
            identity_file: opt_view(self.identity_file),
            proxy_jump: opt_view(self.proxy_jump),
        }
    }
}

pub open spec fn host_views(s: Seq<SshConfigHost>) -> Seq<HostView> {
    s.map_values(|h: SshConfigHost| h@)
}

/// A line without its `#` comment.
pub open spec fn before_hash(raw: Seq<char>) -> Seq<char> {
    let i = first_index(raw, '#');
    if i < 0 {
        raw
    } else {
        raw.take(i)
    }
}

/// The key ends at the first `=` or whitespace.
pub open spec fn is_kv_sep(c: char) -> bool {
    c == '=' || is_ws(c)
}

/// The keyword of a configuration line.
pub open spec fn config_key(line: Seq<char>) -> Seq<char> {
    let i = first_where(line, |c: char| is_kv_sep(c));
    if i < 0 {
        trim(line)
    } else {
        trim(line.take(i))
    }
}

/// `s` without leading `=` and space characters.
pub open spec fn trim_start_eq_space(s: Seq<char>) -> Seq<char>
    decreases s.len(),
{
    if s.len() > 0 && (s[0] == '=' || s[0] == ' ') {
        trim_start_eq_space(s.drop_first())
    } else {
        s
    }
}

/// The argument of a configuration line.
pub open spec fn config_value(line: Seq<char>) -> Seq<char> {
    let i = first_where(line, |c: char| is_kv_sep(c));
    if i < 0 {
        seq![]
    } else {
        trim(trim_start_eq_space(line.skip(i + 1)))
    }
}

pub open spec fn new_host(alias: Seq<char>) -> HostView {
    HostView { alias, user: None, hostname: None, port: None, identity_file: None, proxy_jump: None }
}

/// A wildcard pattern rather than an alias.
pub open spec fn is_wildcard(a: Seq<char>) -> bool {
    a.contains('*') || a.contains('?')
}

/// The hosts named on a `Host` line, wildcard patterns left out.
pub open spec fn hosts_of_words(ws: Seq<Seq<char>>) -> Seq<HostView>
    decreases ws.len(),
{
    if ws.len() == 0 {
        seq![]
    } else {
        let k = hosts_of_words(ws.drop_last());
        if is_wildcard(ws.last()) {
            k
        } else {
            k.push(new_host(ws.last()))
        }
    }
}

/// A host with one setting of its block applied (`key` in lowercase).
pub open spec fn apply_setting(h: HostView, key: Seq<char>, value: Seq<char>) -> HostView {
    if key == "user"@ {
        HostView { user: Some(value), ..h }
    } else if key == "hostname"@ {
        HostView { hostname: Some(value), ..h }
    } else if key == "port"@ {
        HostView { port: spec_parse_u16(value), ..h }
    } else if key == "identityfile"@ {
        HostView { identity_file: Some(value), ..h }
    } else if key == "proxyjump"@ {
        HostView { proxy_jump: Some(value), ..h }
    } else {
        h
    }
}

/// The parser state: finished hosts, and the hosts of the current block.
pub open spec fn ssh_step(st: (Seq<HostView>, Seq<HostView>), raw: Seq<char>) -> (Seq<HostView>, Seq<HostView>) {
    let line = trim(before_hash(raw));
    if line.len() == 0 {
        st
    } else {
        let key = ascii_lower_str(config_key(line));
        let value = config_value(line);
        if key == "host"@ {
            (st.0 + st.1, hosts_of_words(words(value)))
        } else if st.1.len() > 0 {
            (st.0, st.1.map_values(|h: HostView| apply_setting(h, key, value)))
        } else {
            st
        }
    }
}

pub open spec fn ssh_fold(ls: Seq<Seq<char>>) -> (Seq<HostView>, Seq<HostView>)
    decreases ls.len(),
{
    if ls.len() == 0 {
        (seq![], seq![])
    } else {
        ssh_step(ssh_fold(ls.drop_last()), ls.last())
    }
}

/// The hosts with only the first of each alias kept.
pub open spec fn dedup_hosts(s: Seq<HostView>) -> Seq<HostView>
    decreases s.len(),
{
    if s.len() == 0 {
        seq![]
    } else {
        let k = dedup_hosts(s.drop_last());
        if exists|j: int| 0 <= j < s.len() - 1 && #[trigger] s[j].alias == s.last().alias {
            k
        } else {
            k.push(s.last())
        }
    }
}

/// Every alias of the config with the settings of its blocks, first
/// occurrence of each alias only.
pub open spec fn spec_parse_ssh_config(content: Seq<char>) -> Seq<HostView> {
    let st = ssh_fold(lines(content));
    dedup_hosts(st.0 + st.1)
}

/// First `=` or whitespace in `v[lo..hi]`, or `hi`.
fn find_sep(v: &Vec<char>, lo: usize, hi: usize) -> (p: usize)
    requires
        lo <= hi <= v@.len(),
    ensures
        lo <= p <= hi,
        first_where(v@.subrange(lo as int, hi as int), |c: char| is_kv_sep(c)) == (if p < hi { p - lo } else { -1 }),
{
    let mut i = lo;
    while i < hi && !(v[i] == '=' || is_whitespace(v[i]))
        invariant
            lo <= i <= hi <= v@.len(),
            forall|j: int| lo <= j < i ==> !is_kv_sep(v@[j]),
        decreases hi - i,
    {
        i += 1;
    }
    let ghost s = v@.subrange(lo as int, hi as int);
    assert forall|j: int| 0 <= j < s.len() && (i == hi || j < i - lo) implies !(|c: char| is_kv_sep(c))(#[trigger] s[j]) by {
        assert(s[j] == v@[lo + j]);
    }
    proof {
        if i < hi {
            assert(s[i - lo] == v@[i as int]);
            lemma_first_where_at(s, |c: char| is_kv_sep(c), i - lo);
        } else {
            lemma_first_where_at(s, |c: char| is_kv_sep(c), -1);
        }
    }
    i
}

/// The lowercase of `v[lo..hi]`.
fn lower_range(v: &Vec<char>, lo: usize, hi: usize) -> (r: Vec<char>)
    requires
        lo <= hi <= v@.len(),
    ensures
        r@ == ascii_lower_str(v@.subrange(lo as int, hi as int)),
{
    let mut r: Vec<char> = Vec::new();
    let mut i = lo;
    while i < hi
        invariant
            lo <= i <= hi <= v@.len(),
            r@ == ascii_lower_str(v@.subrange(lo as int, i as int)),
        decreases hi - i,
    {
        r.push(to_ascii_lower_char(v[i]));
        assert(ascii_lower_str(v@.subrange(lo as int, i + 1)) =~= ascii_lower_str(v@.subrange(lo as int, i as int)).push(ascii_lower(v@[i as int])));
        i += 1;
    }
    r
}

/// Whether the character `c` occurs in `v[lo..hi]`.
fn range_has_char(v: &Vec<char>, lo: usize, hi: usize, c: char) -> (b: bool)
    requires
        lo <= hi <= v@.len(),
    ensures
        b == v@.subrange(lo as int, hi as int).contains(c),
{
    let p = find_char(v, lo, hi, c);
    let ghost s = v@.subrange(lo as int, hi as int);
    if p < hi {
        assert(s[p - lo] == c);
        true
    } else {
        assert forall|j: int| 0 <= j < s.len() implies s[j] != c by {
            assert(s[j] == v@[lo + j]);
        }
        false
    }
}

/// The hosts named by the words of `v[lo..hi]`.
fn hosts_of_range(v: &Vec<char>, lo: usize, hi: usize) -> (r: Vec<SshConfigHost>)
    requires
        lo <= hi <= v@.len(),
    ensures
        host_views(r@) == hosts_of_words(words(v@.subrange(lo as int, hi as int))),
{
    let mut r: Vec<SshConfigHost> = Vec::new();
    let mut pos = lo;
    let ghost mut done: Seq<Seq<char>> = seq![];
    while pos < hi
        invariant
            lo <= pos <= hi <= v@.len(),
            words(v@.subrange(lo as int, hi as int)) == done + words(v@.subrange(pos as int, hi as int)),
            host_views(r@) == hosts_of_words(done),
        decreases hi - pos,
    {
        match next_word(v, pos, hi) {
            None => {
                assert(done + Seq::<Seq<char>>::empty() =~= done);
                pos = hi;
                assert(v@.subrange(pos as int, hi as int) =~= Seq::<char>::empty());
                assert(words(Seq::<char>::empty()) == Seq::<Seq<char>>::empty());
            },
            Some((a, b)) => {
                let ghost w = v@.subrange(a as int, b as int);
                assert(done.push(w).drop_last() =~= done);
                let wild = range_has_char(v, a, b, '*') || range_has_char(v, a, b, '?');
                if !wild {
                    let ghost prev = r@;
                    r.push(SshConfigHost {
                        alias: string_of_range(v, a, b),
                        user: None,
                        hostname: None,
                        port: None,
                        identity_file: None,
                        proxy_jump: None,
                    });
                    assert(host_views(r@) =~= host_views(prev).push(new_host(w)));
                }
                proof {
                    assert(done.push(w) + words(v@.subrange(b as int, hi as int)) =~= done + (seq![w] + words(v@.subrange(b as int, hi as int))));
                    done = done.push(w);
                }
                pos = b;
            },
        }
    }
    assert(v@.subrange(hi as int, hi as int) =~= Seq::<char>::empty());
    assert(words(Seq::<char>::empty()) == Seq::<Seq<char>>::empty());
    assert(done + Seq::<Seq<char>>::empty() =~= done);
    r
}


/// Bounds of `trim_start_eq_space(v[lo..hi])`.
fn skip_eq_space(v: &Vec<char>, lo: usize, hi: usize) -> (r: usize)
    requires
        lo <= hi <= v@.len(),
    ensures
        lo <= r <= hi,
        v@.subrange(r as int, hi as int) == trim_start_eq_space(v@.subrange(lo as int, hi as int)),
{
    let mut i = lo;
    while i < hi && (v[i] == '=' || v[i] == ' ')
        invariant
            lo <= i <= hi <= v@.len(),
            trim_start_eq_space(v@.subrange(lo as int, hi as int)) == trim_start_eq_space(v@.subrange(i as int, hi as int)),
        decreases hi - i,
    {
        assert(v@.subrange(i as int, hi as int).drop_first() =~= v@.subrange(i + 1, hi as int));
        i += 1;
    }
    i
}

impl SshConfigHost {
    /// A copy of this host.
    pub fn duplicate(&self) -> (r: SshConfigHost)
        ensures
            r@ == self@,
    {
        SshConfigHost {
            alias: self.alias.clone(),
            user: clone_opt_string(&self.user),
            hostname: clone_opt_string(&self.hostname),
            port: self.port,
            identity_file: clone_opt_string(&self.identity_file),
            proxy_jump: clone_opt_string(&self.proxy_jump),
        }
    }
}

/// The host with the setting `key` (lowercase) set to `v[va..vb]`.
fn apply_setting_exec(h: &SshConfigHost, key: &Vec<char>, v: &Vec<char>, va: usize, vb: usize) -> (r: SshConfigHost)
    requires
        va <= vb <= v@.len(),
    ensures
        r@ == apply_setting(h@, key@, v@.subrange(va as int, vb as int)),
{
    let mut r = h.duplicate();
    if chars_eq_str(key, "user") {
        r.user = Some(string_of_range(v, va, vb));
    } else if chars_eq_str(key, "hostname") {
        r.hostname = Some(string_of_range(v, va, vb));
    } else if chars_eq_str(key, "port") {
        r.port = parse_u16_range(v, va, vb);
    } else if chars_eq_str(key, "identityfile") {
        r.identity_file = Some(string_of_range(v, va, vb));
    } else if chars_eq_str(key, "proxyjump") {
        r.proxy_jump = Some(string_of_range(v, va, vb));
    }
    r
}

/// Keeps the first host of each alias.
fn dedup_by_alias(all: &Vec<SshConfigHost>) -> (r: Vec<SshConfigHost>)
    ensures
        host_views(r@) == dedup_hosts(host_views(all@)),
{
    let ghost hv = host_views(all@);
    let mut kept: Vec<SshConfigHost> = Vec::new();
    let mut i: usize = 0;
    while i < all.len()
        invariant
            i <= all@.len(),
            hv == host_views(all@),
            host_views(kept@) == dedup_hosts(hv.take(i as int)),
        decreases all.len() - i,
    {
        let ghost t = hv.take(i + 1);
        assert(t.drop_last() =~= hv.take(i as int));
        assert(forall|k: int| 0 <= k <= i ==> #[trigger] t[k] == all@[k]@);
        assert(t.last() == all@[i as int]@);
        let mut seen = false;
        let mut j: usize = 0;
        while j < i
            invariant
                j <= i < all@.len(),
                hv == host_views(all@),
                t == hv.take(i + 1),
                t.last() == all@[i as int]@,
                forall|k: int| 0 <= k <= i ==> #[trigger] t[k] == all@[k]@,
                seen <==> exists|k: int| 0 <= k < j && #[trigger] t[k].alias == t.last().alias,
            decreases i - j,
        {
            assert(t[j as int] == all@[j as int]@);
            if str_eq(all[j].alias.as_str(), all[i].alias.as_str()) {
                assert(t[j as int].alias == t.last().alias);
                seen = true;
            }
            j += 1;
        }
        if !seen {
            let ghost prev = kept@;
            kept.push(all[i].duplicate());
            assert(host_views(kept@) =~= host_views(prev).push(all@[i as int]@));
        }
        i += 1;
    }
    assert(hv.take(all@.len() as int) =~= hv);
    kept
}

/// Parses `~/.ssh/config` content: walks `Host <patterns>` blocks, skips
/// wildcard patterns (`*`, `?`), collects `User`, `HostName`, `Port`,
/// `IdentityFile` and `ProxyJump` for the aliases of each block, and keeps
/// the first occurrence of each alias.
pub fn parse_ssh_config(content: &str) -> (r: Vec<SshConfigHost>)
    ensures
        host_views(r@) == spec_parse_ssh_config(content@),
{
    let v = chars_of(content);
    let mut out: Vec<SshConfigHost> = Vec::new();
    let mut current: Vec<SshConfigHost> = Vec::new();
    let mut start: usize = 0;
    let ghost mut done: Seq<Seq<char>> = seq![];
    assert(v@.skip(0) =~= v@);
    assert(host_views(out@) =~= Seq::<HostView>::empty());
    assert(host_views(current@) =~= Seq::<HostView>::empty());
    while start < v.len()
        invariant
            start <= v@.len(),
            v@ == content@,
            lines(v@) == done + lines(v@.skip(start as int)),
            (host_views(out@), host_views(current@)) == ssh_fold(done),
        decreases v.len() - start,
    {
        let (e, nx) = next_line(&v, start);
        let ghost raw = v@.subrange(start as int, e as int);
        let ghost st = ssh_fold(done);
        assert(done.push(raw).drop_last() =~= done);
        let hpos = find_char(&v, start, e, '#');
        assert(before_hash(raw) == v@.subrange(start as int, hpos as int)) by {
            if hpos < e {
                assert(raw.take(hpos - start) =~= v@.subrange(start as int, hpos as int));
            } else {
                assert(raw =~= v@.subrange(start as int, hpos as int));
            }
        }
        let (a, b) = trim_range(&v, start, hpos);
        let ghost line = v@.subrange(a as int, b as int);
        if a < b {
            let s = find_sep(&v, a, b);
            let (ka, kb) = if s < b {
                assert(line.take(s - a) =~= v@.subrange(a as int, s as int));
                trim_range(&v, a, s)
            } else {
                trim_range(&v, a, b)
            };
            assert(v@.subrange(ka as int, kb as int) == config_key(line));
            let (va, vb) = if s < b {
                assert(line.skip(s - a + 1) =~= v@.subrange(s + 1, b as int));
                let r0 = skip_eq_space(&v, s + 1, b);
                trim_range(&v, r0, b)
            } else {
                (b, b)
            };
            assert(v@.subrange(va as int, vb as int) == config_value(line)) by {
                if s >= b {
                    assert(v@.subrange(va as int, vb as int) =~= Seq::<char>::empty());
                }
            }
            let kl = lower_range(&v, ka, kb);
            if chars_eq_str(&kl, "host") {
                out.append(&mut current);
                current = hosts_of_range(&v, va, vb);
                assert(host_views(out@) =~= st.0 + st.1);
            } else if current.len() > 0 {
                let ghost cur = host_views(current@);
                let mut next: Vec<SshConfigHost> = Vec::new();
                let mut i: usize = 0;
                while i < current.len()
                    invariant
                        i <= current@.len(),
                        cur == host_views(current@),
                        va <= vb <= v@.len(),
                        host_views(next@) == cur.take(i as int).map_values(
                            |h: HostView| apply_setting(h, kl@, v@.subrange(va as int, vb as int)),
                        ),
                    decreases current.len() - i,
                {
                    let ghost prev = next@;
                    assert(cur[i as int] == current@[i as int]@);
                    assert(cur.take(i + 1).map_values(
                        |h: HostView| apply_setting(h, kl@, v@.subrange(va as int, vb as int)),
                    ) =~= cur.take(i as int).map_values(
                        |h: HostView| apply_setting(h, kl@, v@.subrange(va as int, vb as int)),
                    ).push(apply_setting(cur[i as int], kl@, v@.subrange(va as int, vb as int))));
                    let h = apply_setting_exec(&current[i], &kl, &v, va, vb);
                    next.push(h);
                    assert(host_views(next@) =~= cur.take(i + 1).map_values(
                        |h: HostView| apply_setting(h, kl@, v@.subrange(va as int, vb as int)),
                    ));
                    i += 1;
                }
                assert(cur.take(current@.len() as int) =~= cur);
                current = next;
            } else {
                assert(cur_empty(host_views(current@)));
            }
        }
        proof {
            assert(done.push(raw) + lines(v@.skip(nx as int)) =~= done + (seq![raw] + lines(v@.skip(nx as int))));
            done = done.push(raw);
        }
        start = nx;
    }
    assert(v@.skip(v@.len() as int) =~= Seq::<char>::empty());
    assert(done + Seq::<Seq<char>>::empty() =~= done);
    let ghost fin = ssh_fold(done);
    let ghost o1 = out@;
    let ghost c1 = current@;
    out.append(&mut current);
    assert(host_views(out@) =~= host_views(o1) + host_views(c1));
    assert(host_views(out@) == fin.0 + fin.1);
    dedup_by_alias(&out)
}

spec fn cur_empty(s: Seq<HostView>) -> bool {
    s.len() == 0
}


/// No host of the list is named by a wildcard pattern.
pub open spec fn no_wildcards(s: Seq<HostView>) -> bool {
    forall|i: int| 0 <= i < s.len() ==> !is_wildcard(#[trigger] s[i].alias)
}

/// No two hosts of the list share an alias.
pub open spec fn distinct_aliases(s: Seq<HostView>) -> bool {
    forall|i: int, j: int| 0 <= i < j < s.len() ==> #[trigger] s[i].alias != #[trigger] s[j].alias
}

proof fn lemma_hosts_of_words(ws: Seq<Seq<char>>)
    ensures
        no_wildcards(hosts_of_words(ws)),
    decreases ws.len(),
{
    if ws.len() > 0 {
        lemma_hosts_of_words(ws.drop_last());
    }
}

proof fn lemma_fold_no_wildcards(ls: Seq<Seq<char>>)
    ensures
        no_wildcards(ssh_fold(ls).0),
        no_wildcards(ssh_fold(ls).1),
    decreases ls.len(),
{
    if ls.len() > 0 {
        lemma_fold_no_wildcards(ls.drop_last());
        let st = ssh_fold(ls.drop_last());
        let line = trim(before_hash(ls.last()));
        if line.len() > 0 {
            let key = ascii_lower_str(config_key(line));
            let value = config_value(line);
            if key == "host"@ {
                lemma_hosts_of_words(words(value));
                let a = st.0 + st.1;
                assert forall|i: int| 0 <= i < a.len() implies !is_wildcard(#[trigger] a[i].alias) by {
                    if i >= st.0.len() {
                        assert(a[i] == st.1[i - st.0.len()]);
                    }
                }
            } else if st.1.len() > 0 {
                let m = st.1.map_values(|h: HostView| apply_setting(h, key, value));
                assert forall|i: int| 0 <= i < m.len() implies !is_wildcard(#[trigger] m[i].alias) by {
                    assert(m[i].alias == st.1[i].alias);
                }
            }
        }
    }
}

/// `h` is one of the hosts of `s`.
pub open spec fn host_in(s: Seq<HostView>, h: HostView) -> bool {
    exists|j: int| 0 <= j < s.len() && s[j] == h
}

proof fn lemma_dedup_subset(s: Seq<HostView>)
    ensures
        forall|i: int| 0 <= i < dedup_hosts(s).len() ==> host_in(s, #[trigger] dedup_hosts(s)[i]),
    decreases s.len(),
{
    if s.len() > 0 {
        let p = s.drop_last();
        lemma_dedup_subset(p);
        let k = dedup_hosts(p);
        let d = dedup_hosts(s);
        assert forall|i: int| 0 <= i < d.len() implies host_in(s, #[trigger] d[i]) by {
            if i < k.len() {
                assert(d[i] == k[i]);
                assert(host_in(p, k[i]));
                let j = choose|j: int| 0 <= j < p.len() && p[j] == k[i];
                assert(s[j] == p[j]);
            } else {
                assert(s[s.len() - 1] == d[i]);
            }
        }
    }
}

proof fn lemma_dedup_distinct(s: Seq<HostView>)
    ensures
        distinct_aliases(dedup_hosts(s)),
    decreases s.len(),
{
    if s.len() > 0 {
        let p = s.drop_last();
        lemma_dedup_distinct(p);
        lemma_dedup_subset(p);
        let k = dedup_hosts(p);
        let d = dedup_hosts(s);
        if !(exists|j: int| 0 <= j < s.len() - 1 && #[trigger] s[j].alias == s.last().alias) {
            assert forall|a: int, b: int| 0 <= a < b < d.len() implies #[trigger] d[a].alias != #[trigger] d[b].alias by {
                if b == d.len() - 1 {
                    assert(d[a] == k[a]);
                    assert(host_in(p, k[a]));
                    let j = choose|j: int| 0 <= j < p.len() && p[j] == k[a];
                    assert(s[j] == p[j]);
                } else {
                    assert(d[a] == k[a] && d[b] == k[b]);
                }
            }
        }
    }
}

/// The hosts read from an ssh_config are named by aliases, never by
/// wildcard patterns, and each alias occurs once.
pub proof fn law_ssh_config_aliases(content: Seq<char>)
    ensures
        no_wildcards(spec_parse_ssh_config(content)),
        distinct_aliases(spec_parse_ssh_config(content)),
{
    let st = ssh_fold(lines(content));
    let all = st.0 + st.1;
    lemma_fold_no_wildcards(lines(content));
    assert(no_wildcards(all)) by {
        assert forall|i: int| 0 <= i < all.len() implies !is_wildcard(#[trigger] all[i].alias) by {
            if i >= st.0.len() {
                assert(all[i] == st.1[i - st.0.len()]);
            }
        }
    }
    lemma_dedup_subset(all);
    lemma_dedup_distinct(all);
    let d = dedup_hosts(all);
    assert forall|i: int| 0 <= i < d.len() implies !is_wildcard(#[trigger] d[i].alias) by {
        assert(host_in(all, d[i]));
        let j = choose|j: int| 0 <= j < all.len() && all[j] == d[i];
    }
}

/// A keyword as written in the config: not empty, no `=` or whitespace.
pub open spec fn plain_keyword(k: Seq<char>) -> bool {
    k.len() > 0 && forall|j: int| 0 <= j < k.len() ==> !is_kv_sep(#[trigger] k[j])
}

/// An argument as written in the config: not empty, not starting with `=`,
/// no whitespace at either end.
pub open spec fn plain_argument(v: Seq<char>) -> bool {
    v.len() > 0 && v[0] != '=' && !is_ws(v[0]) && !is_ws(v.last())
}

/// The keyword and argument of `<k><sep><v>`, where `sep` starts with `=`
/// or a space and the argument starts where `sep` ends.
proof fn lemma_key_value(k: Seq<char>, sep: Seq<char>, v: Seq<char>)
    requires
        plain_keyword(k),
        plain_argument(v),
        sep.len() > 0,
        is_kv_sep(sep[0]),
        trim_start_eq_space(sep.drop_first() + v) == v,
    ensures
        config_key(k + sep + v) == k,
        config_value(k + sep + v) == v,
{
    let line = k + sep + v;
    assert(line[k.len() as int] == sep[0]);
    assert forall|j: int| 0 <= j < line.len() && j < k.len() implies !(|c: char| is_kv_sep(c))(#[trigger] line[j]) by {
        assert(line[j] == k[j]);
    }
    lemma_first_where_at(line, |c: char| is_kv_sep(c), k.len() as int);
    assert(line.take(k.len() as int) =~= k);
    assert(line.skip(k.len() as int + 1) =~= sep.drop_first() + v);
    assert(!is_ws(k[0]));
    assert(!is_ws(k[k.len() - 1]));
    assert(crate::text::trim_start(k) == k);
    assert(crate::text::trim_end(k) == k);
    assert(crate::text::trim_start(v) == v);
    assert(crate::text::trim_end(v) == v);
}

/// `Key value`, `Key=value` and `Key = value` are the same setting: each
/// gives the keyword `Key` and the argument `value`.
pub proof fn law_config_separators(k: Seq<char>, v: Seq<char>)
    requires
        plain_keyword(k),
        plain_argument(v),
    ensures
        config_key(k + " "@ + v) == k,
        config_value(k + " "@ + v) == v,
        config_key(k + "="@ + v) == k,
        config_value(k + "="@ + v) == v,
        config_key(k + " = "@ + v) == k,
        config_value(k + " = "@ + v) == v,
{
    reveal_strlit(" ");
    reveal_strlit("=");
    reveal_strlit(" = ");
    assert(" "@ =~= seq![' ']);
    assert("="@ =~= seq!['=']);
    assert(" = "@ =~= seq![' ', '=', ' ']);
    assert(is_ws(' '));
    assert(v[0] != ' ');
    assert(" "@.drop_first() + v =~= v);
    lemma_key_value(k, " "@, v);
    assert("="@.drop_first() + v =~= v);
    lemma_key_value(k, "="@, v);
    let t = " = "@.drop_first() + v;
    assert(t.drop_first().drop_first() =~= v);
    assert(t.drop_first() =~= seq![' '] + v);
    assert(trim_start_eq_space(t.drop_first().drop_first()) == v);
    assert(t.drop_first()[0] == ' ');
    assert(trim_start_eq_space(t.drop_first()) == v);
    assert(t[0] == '=');
    assert(trim_start_eq_space(t) == v);
    lemma_key_value(k, " = "@, v);
}

} // verus!
