//! The settings store: the list of known projects and the saved ad-hoc
//! hosts, with the edits the app makes to them.

use vstd::prelude::*;
use crate::text::{owned, push_str, str_eq, strings_view};
use crate::types::opt_view;

verus! {

/// Settings persisted as `settings.json`.
#[derive(Debug)]
pub struct Settings {
    pub project_paths: Vec<String>,
    pub saved_hosts: Vec<SavedHost>,
}

/// An ad-hoc host the user saved for terminals.
#[derive(Debug)]
pub struct SavedHost {
    pub id: String,
    pub label: String,
    pub user: String,
    pub host: String,
    pub port: Option<u16>,
    pub identity: Option<String>,
    pub proxy_jump: Option<String>,
    pub initial_cwd: Option<String>,
    pub notes: Option<String>,
    /// Wrap the shell in a named tmux session that survives disconnects.
    pub use_tmux: bool,
    /// Tmux session name (derived from the label when empty).
    pub tmux_session: Option<String>,
}

/// The mathematical value of a [`SavedHost`].
pub struct SavedHostView {
    pub id: Seq<char>,
    pub label: Seq<char>,
    pub user: Seq<char>,
    pub host: Seq<char>,
    pub port: Option<u16>,
    pub identity: Option<Seq<char>>,
    pub proxy_jump: Option<Seq<char>>,
    pub initial_cwd: Option<Seq<char>>,
    pub notes: Option<Seq<char>>,
    pub use_tmux: bool,
    pub tmux_session: Option<Seq<char>>,
}

impl View for SavedHost {
    type V = SavedHostView;

    open spec fn view(&self) -> SavedHostView {
        SavedHostView {
            id: self.id@,
            label: self.label@,
            user: self.user@,
            host: self.host@,
            port: self.port,
            identity: opt_view(self.identity),
            proxy_jump: opt_view(self.proxy_jump),
            initial_cwd: opt_view(self.initial_cwd),
            notes: opt_view(self.notes),
            use_tmux: self.use_tmux,
            tmux_session: opt_view(self.tmux_session),
        }
    }
}

/// The mathematical value of [`Settings`].
pub struct SettingsView {
    pub project_paths: Seq<Seq<char>>,
    pub saved_hosts: Seq<SavedHostView>,
}

pub open spec fn hosts_view(v: Seq<SavedHost>) -> Seq<SavedHostView> {
    v.map_values(|h: SavedHost| h@)
}

impl View for Settings {
    type V = SettingsView;

    open spec fn view(&self) -> SettingsView {
        SettingsView {
            project_paths: strings_view(self.project_paths@),
            saved_hosts: hosts_view(self.saved_hosts@),
        }
    }
}

fn clone_opt(o: &Option<String>) -> (r: Option<String>)
    ensures
        opt_view(r) == opt_view(*o),
{
    match o {
        Some(s) => Some(s.clone()),
        None => None,
    }
}

impl SavedHost {
    /// A copy of this host.
    pub fn duplicate(&self) -> (r: SavedHost)
        ensures
            r@ == self@,
    {
        SavedHost {
            id: self.id.clone(),
            label: self.label.clone(),
            user: self.user.clone(),
            host: self.host.clone(),
            port: self.port,
            identity: clone_opt(&self.identity),
            proxy_jump: clone_opt(&self.proxy_jump),
            initial_cwd: clone_opt(&self.initial_cwd),
            notes: clone_opt(&self.notes),
            use_tmux: self.use_tmux,
            tmux_session: clone_opt(&self.tmux_session),
        }
    }
}

/// A hyphen position of the hyphenated uuid form.
pub open spec fn uuid_hyphen_at(i: int) -> bool {
    i == 8 || i == 13 || i == 18 || i == 23
}

/// What a fresh identifier is: a version 4 uuid in its hyphenated form, 36
/// characters of lowercase hexadecimal digits with hyphens after 8, 12, 16
/// and 20 digits, and the version digit `4` first in the third group.
pub open spec fn fresh_id_shape(id: Seq<char>) -> bool {
    &&& id.len() == 36
    &&& forall|i: int| 0 <= i < 36 ==> if uuid_hyphen_at(i) {
        #[trigger] id[i] == '-'
    } else {
        ('0' <= id[i] && id[i] <= '9') || ('a' <= id[i] && id[i] <= 'f')
    }
    &&& id[14] == '4'
}

/// Makes a random identifier with `uuid::Uuid::new_v4` and writes it with
/// `to_string`: the uuid crate's `Display` writes the lowercase hyphenated
/// form, and `new_v4` sets the version to 4. Which identifier comes out is
/// random and not stated.
#[verifier::external_body]
fn new_uuid() -> (r: String)
    ensures
        fresh_id_shape(r@),
{
    uuid::Uuid::new_v4().to_string()
}

/// The host as it is stored: an empty id is replaced by `fresh`.
pub open spec fn spec_with_id(h: SavedHostView, fresh: Seq<char>) -> SavedHostView {
    if h.id.len() == 0 {
        SavedHostView { id: fresh, ..h }
    } else {
        h
    }
}

/// The hosts without those whose id is `id`, in order.
pub open spec fn hosts_without(hs: Seq<SavedHostView>, id: Seq<char>) -> Seq<SavedHostView>
    decreases hs.len(),
{
    if hs.len() == 0 {
        seq![]
    } else {
        let k = hosts_without(hs.drop_last(), id);
        if hs.last().id == id {
            k
        } else {
            k.push(hs.last())
        }
    }
}

/// Index of the first host whose id is `id`, or -1.
pub open spec fn host_position(hs: Seq<SavedHostView>, id: Seq<char>) -> int
    decreases hs.len(),
{
    if hs.len() == 0 {
        -1
    } else if hs[0].id == id {
        0
    } else {
        let r = host_position(hs.drop_first(), id);
        if r < 0 {
            -1
        } else {
            r + 1
        }
    }
}

pub proof fn lemma_host_position(hs: Seq<SavedHostView>, id: Seq<char>)
    ensures
        -1 <= host_position(hs, id) < hs.len(),
        host_position(hs, id) >= 0 ==> hs[host_position(hs, id)].id == id,
        forall|j: int| 0 <= j < hs.len() && (host_position(hs, id) < 0 || j < host_position(hs, id)) ==> (#[trigger] hs[j]).id != id,
    decreases hs.len(),
{
    if hs.len() > 0 && hs[0].id != id {
        lemma_host_position(hs.drop_first(), id);
        assert forall|j: int| 0 <= j < hs.len() && (host_position(hs, id) < 0 || j < host_position(hs, id)) implies (#[trigger] hs[j]).id != id by {
            if j > 0 {
                assert(hs[j] == hs.drop_first()[j - 1]);
            }
        }
    }
}

/// The paths with `p` added unless it is already there.
pub open spec fn spec_add_path(ps: Seq<Seq<char>>, p: Seq<char>) -> Seq<Seq<char>> {
    if ps.contains(p) {
        ps
    } else {
        ps.push(p)
    }
}

/// The paths without any equal to `p`, in order.
pub open spec fn paths_without(ps: Seq<Seq<char>>, p: Seq<char>) -> Seq<Seq<char>>
    decreases ps.len(),
{
    if ps.len() == 0 {
        seq![]
    } else {
        let k = paths_without(ps.drop_last(), p);
        if ps.last() == p {
            k
        } else {
            k.push(ps.last())
        }
    }
}

impl Settings {
    /// Empty settings.
    pub fn new() -> (r: Settings)
        ensures
            r@.project_paths.len() == 0,
            r@.saved_hosts.len() == 0,
    {
        let r = Settings { project_paths: Vec::new(), saved_hosts: Vec::new() };
        assert(r@.saved_hosts =~= Seq::<SavedHostView>::empty());
        r
    }

    /// Saves a host with the given id for it when it has none; returns the
    /// host as stored.
    pub fn add_saved_host_with_id(&mut self, host: SavedHost, fresh: String) -> (r: SavedHost)
        ensures
            r@ == spec_with_id(host@, fresh@),
            final(self)@.saved_hosts == old(self)@.saved_hosts.push(r@),
            final(self)@.project_paths == old(self)@.project_paths,
    {
        let mut host = host;
        if host.id.as_str().is_empty() {
            host.id = fresh;
        }
        let stored = host.duplicate();
        let ghost prev = self.saved_hosts@;
        self.saved_hosts.push(stored);
        assert(hosts_view(self.saved_hosts@) =~= hosts_view(prev).push(host@));
        host
    }

    /// Saves a host, giving it a fresh random id when it has none; returns
    /// the host as stored.
    pub fn add_saved_host(&mut self, host: SavedHost) -> (r: SavedHost)
        ensures
            host@.id.len() > 0 ==> r@ == host@,
            host@.id.len() == 0 ==> fresh_id_shape(r@.id) && r@ == (SavedHostView { id: r@.id, ..host@ }),
            final(self)@.saved_hosts == old(self)@.saved_hosts.push(r@),
            final(self)@.project_paths == old(self)@.project_paths,
    {
        let fresh = if host.id.as_str().is_empty() {
            new_uuid()
        } else {
            String::new()
        };
        self.add_saved_host_with_id(host, fresh)
    }

    /// Replaces the first saved host with the same id, or reports that no
    /// host has that id.
    pub fn update_saved_host(&mut self, host: SavedHost) -> (r: Result<(), String>)
        ensures
            ({
                let i = host_position(old(self)@.saved_hosts, host@.id);
                match r {
                    Ok(()) => i >= 0 && final(self)@.saved_hosts == old(self)@.saved_hosts.update(i, host@),
                    Err(e) => i < 0 && e@ == "host '"@ + host@.id + "' not found"@ && final(self)@ == old(self)@,
                }
            }),
            final(self)@.project_paths == old(self)@.project_paths,
    {
        let ghost hs = self@.saved_hosts;
        proof {
            lemma_host_position(hs, host@.id);
        }
        let mut i: usize = 0;
        while i < self.saved_hosts.len()
            invariant
                i <= self.saved_hosts@.len(),
                hosts_view(self.saved_hosts@) == hs,
                self.saved_hosts@ == old(self).saved_hosts@,
                self.project_paths@ == old(self).project_paths@,
                forall|j: int| 0 <= j < i ==> (#[trigger] hs[j]).id != host@.id,
            decreases self.saved_hosts.len() - i,
        {
            assert(hs[i as int] == self.saved_hosts@[i as int]@);
            if str_eq(self.saved_hosts[i].id.as_str(), host.id.as_str()) {
                assert(hs[i as int].id == host@.id);
                let ghost hv = host@;
                let ghost prev = self.saved_hosts@;
                proof {
                    lemma_host_position(hs, host@.id);
                    let p = host_position(hs, host@.id);
                    if p >= 0 && p < i {
                        assert(hs[p].id == host@.id);
                    }
                    if p < 0 || p > i {
                        assert(hs[i as int].id != host@.id);
                    }
                    assert(p == i);
                }
                self.saved_hosts.set(i, host);
                assert(hosts_view(self.saved_hosts@) =~= hosts_view(prev).update(i as int, hv));
                return Ok(());
            }
            i += 1;
        }
        proof {
            lemma_host_position(hs, host@.id);
            let p = host_position(hs, host@.id);
            if p >= 0 {
                assert(hs[p].id != host@.id);
            }
        }
        let mut msg = owned("host '");
        push_str(&mut msg, host.id.as_str());
        push_str(&mut msg, "' not found");
        Err(msg)
    }

    /// Forgets every saved host with the given id.
    pub fn remove_saved_host(&mut self, id: &str)
        ensures
            final(self)@.saved_hosts == hosts_without(old(self)@.saved_hosts, id@),
            final(self)@.project_paths == old(self)@.project_paths,
    {
        let ghost hs = self@.saved_hosts;
        let mut old_hosts: Vec<SavedHost> = Vec::new();
        std::mem::swap(&mut old_hosts, &mut self.saved_hosts);
        let mut kept: Vec<SavedHost> = Vec::new();
        let mut i: usize = 0;
        while i < old_hosts.len()
            invariant
                i <= old_hosts@.len(),
                hosts_view(old_hosts@) == hs,
                hosts_view(kept@) == hosts_without(hs.take(i as int), id@),
            decreases old_hosts.len() - i,
        {
            let h = &old_hosts[i];
            assert(hs.take(i + 1).drop_last() =~= hs.take(i as int));
            assert(hs.take(i + 1).last() == h@);
            assert(hs[i as int] == old_hosts@[i as int]@);
            if !str_eq(h.id.as_str(), id) {
                let ghost prev = kept@;
                kept.push(h.duplicate());
                assert(hosts_view(kept@) =~= hosts_view(prev).push(h@));
            }
            i += 1;
        }
        assert(hs.take(old_hosts@.len() as int) =~= hs);
        self.saved_hosts = kept;
    }

    /// Remembers a project path unless it is already known.
    pub fn add_project_path(&mut self, path: &str)
        ensures
            final(self)@.project_paths == spec_add_path(old(self)@.project_paths, path@),
            final(self)@.saved_hosts == old(self)@.saved_hosts,
    {
        let ghost ps = self@.project_paths;
        let mut i: usize = 0;
        while i < self.project_paths.len()
            invariant
                i <= self.project_paths@.len(),
                strings_view(self.project_paths@) == ps,
                self.project_paths@ == old(self).project_paths@,
                self.saved_hosts@ == old(self).saved_hosts@,
                forall|j: int| 0 <= j < i ==> ps[j] != path@,
            decreases self.project_paths.len() - i,
        {
            assert(ps[i as int] == self.project_paths@[i as int]@);
            if str_eq(self.project_paths[i].as_str(), path) {
                assert(ps[i as int] == path@);
                assert(ps.contains(path@));
                return;
            }
            i += 1;
        }
        assert(!ps.contains(path@));
        let ghost prev = self.project_paths@;
        self.project_paths.push(owned(path));
        assert(strings_view(self.project_paths@) =~= strings_view(prev).push(path@));
    }

    /// Forgets every stored path equal to `path`.
    pub fn remove_project_path(&mut self, path: &str)
        ensures
            final(self)@.project_paths == paths_without(old(self)@.project_paths, path@),
            final(self)@.saved_hosts == old(self)@.saved_hosts,
    {
        let ghost ps = self@.project_paths;
        let mut old_paths: Vec<String> = Vec::new();
        std::mem::swap(&mut old_paths, &mut self.project_paths);
        let mut kept: Vec<String> = Vec::new();
        let mut i: usize = 0;
        while i < old_paths.len()
            invariant
                i <= old_paths@.len(),
                strings_view(old_paths@) == ps,
                strings_view(kept@) == paths_without(ps.take(i as int), path@),
            decreases old_paths.len() - i,
        {
            assert(ps.take(i + 1).drop_last() =~= ps.take(i as int));
            assert(ps.take(i + 1).last() == old_paths@[i as int]@);
            assert(ps[i as int] == old_paths@[i as int]@);
            if !str_eq(old_paths[i].as_str(), path) {
                let ghost prev = kept@;
                kept.push(old_paths[i].clone());
                assert(strings_view(kept@) =~= strings_view(prev).push(old_paths@[i as int]@));
            }
            i += 1;
        }
        assert(ps.take(old_paths@.len() as int) =~= ps);
        self.project_paths = kept;
    }
}


/// Adding a project path twice is the same as adding it once, and afterwards
/// the path is known.
pub proof fn law_add_path_idempotent(ps: Seq<Seq<char>>, p: Seq<char>)
    ensures
        spec_add_path(spec_add_path(ps, p), p) == spec_add_path(ps, p),
        spec_add_path(ps, p).contains(p),
{
    if !ps.contains(p) {
        assert(ps.push(p)[ps.len() as int] == p);
    }
}

proof fn lemma_paths_without(ps: Seq<Seq<char>>, p: Seq<char>)
    ensures
        !paths_without(ps, p).contains(p),
        forall|q: Seq<char>| q != p ==> (ps.contains(q) <==> paths_without(ps, p).contains(q)),
    decreases ps.len(),
{
    if ps.len() > 0 {
        let d = ps.drop_last();
        lemma_paths_without(d, p);
        let k = paths_without(d, p);
        let r = paths_without(ps, p);
        assert(r == if ps.last() == p { k } else { k.push(ps.last()) });
        assert forall|j: int| 0 <= j < k.len() implies #[trigger] r[j] == k[j] by {}
        assert forall|q: Seq<char>| q != p implies (ps.contains(q) <==> r.contains(q)) by {
            if ps.contains(q) {
                let j = choose|j: int| 0 <= j < ps.len() && ps[j] == q;
                if j < ps.len() - 1 {
                    assert(d[j] == q);
                    assert(d.contains(q));
                    assert(k.contains(q));
                    let m = choose|m: int| 0 <= m < k.len() && k[m] == q;
                    assert(r[m] == q);
                } else {
                    assert(r[k.len() as int] == q);
                }
            }
            if r.contains(q) {
                let j = choose|j: int| 0 <= j < r.len() && r[j] == q;
                if j < k.len() {
                    assert(k[j] == q);
                    assert(k.contains(q));
                    assert(d.contains(q));
                    let m = choose|m: int| 0 <= m < d.len() && d[m] == q;
                    assert(ps[m] == q);
                } else {
                    assert(ps[ps.len() - 1] == q);
                }
            }
        }
        assert forall|j: int| 0 <= j < r.len() implies r[j] != p by {
            if j < k.len() {
                assert(r[j] == k[j]);
            }
        }
    }
}

/// Removing a project path forgets it and keeps every other known path.
pub proof fn law_remove_path(ps: Seq<Seq<char>>, p: Seq<char>)
    ensures
        !paths_without(ps, p).contains(p),
        forall|q: Seq<char>| q != p ==> (ps.contains(q) <==> paths_without(ps, p).contains(q)),
{
    lemma_paths_without(ps, p);
}

/// Removing a saved host leaves no host with that id, and keeps the other
/// hosts in order.
pub proof fn law_remove_host(hs: Seq<SavedHostView>, id: Seq<char>)
    ensures
        forall|j: int| 0 <= j < hosts_without(hs, id).len() ==> (#[trigger] hosts_without(hs, id)[j]).id != id,
        hosts_without(hs, id).len() <= hs.len(),
        (forall|j: int| 0 <= j < hs.len() ==> (#[trigger] hs[j]).id != id) ==> hosts_without(hs, id) == hs,
    decreases hs.len(),
{
    if hs.len() > 0 {
        law_remove_host(hs.drop_last(), id);
        let k = hosts_without(hs.drop_last(), id);
        if hs.last().id != id {
            assert forall|j: int| 0 <= j < k.push(hs.last()).len() implies (#[trigger] k.push(hs.last())[j]).id != id by {
                if j < k.len() {
                    assert(k.push(hs.last())[j] == k[j]);
                }
            }
        }
        if forall|j: int| 0 <= j < hs.len() ==> (#[trigger] hs[j]).id != id {
            assert forall|j: int| 0 <= j < hs.drop_last().len() implies (#[trigger] hs.drop_last()[j]).id != id by {
                assert(hs.drop_last()[j] == hs[j]);
            }
            assert(hs.drop_last().push(hs.last()) =~= hs);
        }
    }
}

/// After a host is updated, looking it up by its id finds the new host at
/// the position the old one had.
pub proof fn law_update_then_find(hs: Seq<SavedHostView>, h: SavedHostView)
    requires
        host_position(hs, h.id) >= 0,
    ensures
        host_position(hs.update(host_position(hs, h.id), h), h.id) == host_position(hs, h.id),
        hs.update(host_position(hs, h.id), h)[host_position(hs, h.id)] == h,
{
    lemma_host_position(hs, h.id);
    let i = host_position(hs, h.id);
    let hs2 = hs.update(i, h);
    lemma_host_position(hs2, h.id);
    let p = host_position(hs2, h.id);
    if p >= 0 && p < i {
        assert(hs2[p] == hs[p]);
    }
    if p < 0 || p > i {
        assert(hs2[i].id == h.id);
    }
}

} // verus!
