//! The containers of an environment, from the rows of `docker ps`.

use vstd::prelude::*;
use crate::sorting::{law_sorted_indices, permutation_of, sort_indices, sorted_indices, str_lt};
use crate::text::{
    chars_of, clone_opt_string, contains, find_char, first_index, owned, push_str, starts_with,
    str_contains, str_starts_with, str_to_lowercase, string_of_range, strings_view,
    to_lowercase, trim, trim_range, push_string,
};
use crate::types::{Container, opt_view};

verus! {

/// One row of `docker ps --format '{{json .}}'`.
#[derive(Debug, Clone)]
pub struct DockerPsRow {
    pub names: String,
    pub state: String,
    pub status: String,
    pub image: String,
    pub ports: String,
}

/// The mathematical value of a [`Container`].
pub struct ContainerView {
    pub name: Seq<char>,
    pub state: Seq<char>,
    pub status: Seq<char>,
    pub image: Seq<char>,
    pub ports: Seq<Seq<char>>,
    pub health: Option<Seq<char>>,
}

impl View for Container {
    type V = ContainerView;

    open spec fn view(&self) -> ContainerView {
        ContainerView {
            name: self.name@,
            state: self.state@,
            status: self.status@,
            image: self.image@,
            ports: strings_view(self.ports@),
            health: opt_view(self.health),
        }
    }
}

/// The health a docker status reports: `(healthy)`, `(unhealthy)` or
/// `health: starting`, looked up in its lowercase form.
pub open spec fn spec_health(status: Seq<char>) -> Option<Seq<char>> {
    let s = str_to_lowercase(status);
    if contains(s, "(healthy)"@) {
        Some("healthy"@)
    } else if contains(s, "(unhealthy)"@) {
        Some("unhealthy"@)
    } else if contains(s, "health: starting"@) {
        Some("starting"@)
    } else {
        None
    }
}

/// The health of a container from its docker status text.
pub fn extract_health(status: &str) -> (r: Option<String>)
    ensures
        opt_view(r) == spec_health(status@),
{
    let s = to_lowercase(status);
    if str_contains(s.as_str(), "(healthy)") {
        Some(owned("healthy"))
    } else if str_contains(s.as_str(), "(unhealthy)") {
        Some(owned("unhealthy"))
    } else if str_contains(s.as_str(), "health: starting") {
        Some(owned("starting"))
    } else {
        None
    }
}

/// The pieces of `s` between the separators `c`, as `str::split` with a char.
pub open spec fn split_char(s: Seq<char>, c: char) -> Seq<Seq<char>>
    decreases s.len(),
{
    let i = first_index(s, c);
    if i < 0 {
        seq![s]
    } else {
        proof {
            crate::text::lemma_first_index(s, c);
        }
        seq![s.take(i)] + split_char(s.skip(i + 1), c)
    }
}

/// The non-empty trimmed pieces of a list.
pub open spec fn nonempty_trimmed(ps: Seq<Seq<char>>) -> Seq<Seq<char>>
    decreases ps.len(),
{
    if ps.len() == 0 {
        seq![]
    } else {
        let k = nonempty_trimmed(ps.drop_last());
        if trim(ps.last()).len() > 0 {
            k.push(trim(ps.last()))
        } else {
            k
        }
    }
}

/// The published ports of a row: the comma-separated entries, trimmed, empty ones left out.
pub open spec fn spec_ports(s: Seq<char>) -> Seq<Seq<char>> {
    nonempty_trimmed(split_char(s, ','))
}

/// The ports list of `docker ps` split into entries.
pub fn split_ports(s: &str) -> (r: Vec<String>)
    ensures
        strings_view(r@) == spec_ports(s@),
{
    let v = chars_of(s);
    let n = v.len();
    let mut out: Vec<String> = Vec::new();
    let mut pos: usize = 0;
    let ghost mut done: Seq<Seq<char>> = seq![];
    assert(v@.subrange(0, n as int) =~= v@);
    loop
        invariant
            pos <= n == v@.len(),
            v@ == s@,
            split_char(v@, ',') == done + split_char(v@.subrange(pos as int, n as int), ','),
            strings_view(out@) == nonempty_trimmed(done),
        decreases n - pos,
    {
        let p = find_char(&v, pos, n, ',');
        let ghost rest = v@.subrange(pos as int, n as int);
        let ghost piece = v@.subrange(pos as int, p as int);
        let (a, b) = trim_range(&v, pos, p);
        assert(done.push(piece).drop_last() =~= done);
        if a < b {
            push_string(&mut out, string_of_range(&v, a, b));
        }
        if p == n {
            assert(piece =~= rest);
            assert(split_char(rest, ',') == seq![rest]);
            assert(done + seq![rest] =~= done.push(piece));
            return out;
        }
        assert(rest.take(p - pos) =~= piece);
        assert(rest.skip(p - pos + 1) =~= v@.subrange(p + 1, n as int));
        proof {
            assert(done.push(piece) + split_char(v@.subrange(p + 1, n as int), ',') =~= done + (seq![piece] + split_char(v@.subrange(p + 1, n as int), ',')));
            done = done.push(piece);
        }
        pos = p + 1;
    }
}

/// The mathematical value of a [`DockerPsRow`].
pub struct RowView {
    pub names: Seq<char>,
    pub state: Seq<char>,
    pub status: Seq<char>,
    pub image: Seq<char>,
    pub ports: Seq<char>,
}

impl View for DockerPsRow {
    type V = RowView;

    open spec fn view(&self) -> RowView {
        RowView { names: self.names@, state: self.state@, status: self.status@, image: self.image@, ports: self.ports@ }
    }
}

/// A row belongs to the app when its name starts with `<app>-`, the
/// naming of the deploy CLI.
pub open spec fn belongs_to(app: Seq<char>, name: Seq<char>) -> bool {
    starts_with(name, app + "-"@)
}

pub open spec fn row_container(r: RowView) -> ContainerView {
    ContainerView {
        name: r.names,
        state: r.state,
        status: r.status,
        image: r.image,
        ports: spec_ports(r.ports),
        health: spec_health(r.status),
    }
}

/// The containers of the app's rows, in row order.
pub open spec fn app_containers(app: Seq<char>, rows: Seq<RowView>) -> Seq<ContainerView>
    decreases rows.len(),
{
    if rows.len() == 0 {
        seq![]
    } else {
        let k = app_containers(app, rows.drop_last());
        if belongs_to(app, rows.last().names) {
            k.push(row_container(rows.last()))
        } else {
            k
        }
    }
}

pub open spec fn container_views(s: Seq<Container>) -> Seq<ContainerView> {
    s.map_values(|c: Container| c@)
}

/// The containers in stable order of their names.
pub open spec fn sort_containers(cs: Seq<ContainerView>) -> Seq<ContainerView> {
    let idx = sorted_indices(cs.map_values(|c: ContainerView| c.name));
    idx.map_values(|i: int| cs[i])
}

pub open spec fn row_views(rows: Seq<DockerPsRow>) -> Seq<RowView> {
    rows.map_values(|r: DockerPsRow| r@)
}

fn clone_strings(v: &Vec<String>) -> (r: Vec<String>)
    ensures
        strings_view(r@) == strings_view(v@),
{
    let mut r: Vec<String> = Vec::new();
    let mut i: usize = 0;
    while i < v.len()
        invariant
            i <= v@.len(),
            strings_view(r@) == strings_view(v@).take(i as int),
        decreases v.len() - i,
    {
        push_string(&mut r, v[i].clone());
        assert(strings_view(v@).take(i + 1) =~= strings_view(v@).take(i as int).push(v@[i as int]@));
        i += 1;
    }
    assert(strings_view(v@).take(v@.len() as int) =~= strings_view(v@));
    r
}

impl Container {
    /// A copy of this container.
    pub fn duplicate(&self) -> (r: Container)
        ensures
            r@ == self@,
    {
        Container {
            name: self.name.clone(),
            state: self.state.clone(),
            status: self.status.clone(),
            image: self.image.clone(),
            ports: clone_strings(&self.ports),
            health: clone_opt_string(&self.health),
        }
    }
}

/// The app's containers from the rows of `docker ps`: rows whose name
/// starts with `<app>-`, with ports split and health extracted, ordered by
/// name.
pub fn containers_from_rows(app_name: &str, rows: &Vec<DockerPsRow>) -> (r: Vec<Container>)
    ensures
        container_views(r@) == sort_containers(app_containers(app_name@, row_views(rows@))),
{
    let mut prefix = owned(app_name);
    push_str(&mut prefix, "-");
    let ghost rv = row_views(rows@);
    let mut cs: Vec<Container> = Vec::new();
    let mut i: usize = 0;
    while i < rows.len()
        invariant
            i <= rows@.len(),
            rv == row_views(rows@),
            prefix@ == app_name@ + "-"@,
            container_views(cs@) == app_containers(app_name@, rv.take(i as int)),
        decreases rows.len() - i,
    {
        let row = &rows[i];
        assert(rv.take(i + 1).drop_last() =~= rv.take(i as int));
        assert(rv.take(i + 1).last() == row@);
        if str_starts_with(row.names.as_str(), prefix.as_str()) {
            let c = Container {
                name: row.names.clone(),
                state: row.state.clone(),
                status: row.status.clone(),
                image: row.image.clone(),
                ports: split_ports(row.ports.as_str()),
                health: extract_health(row.status.as_str()),
            };
            let ghost prev = cs@;
            let ghost cv = c@;
            cs.push(c);
            assert(container_views(cs@) =~= container_views(prev).push(cv));
        }
        i += 1;
    }
    assert(rv.take(rows@.len() as int) =~= rv);
    let ghost all = container_views(cs@);
    let mut names: Vec<String> = Vec::new();
    let mut j: usize = 0;
    while j < cs.len()
        invariant
            j <= cs@.len(),
            all == container_views(cs@),
            names@.map_values(|s: String| s@) == all.take(j as int).map_values(|c: ContainerView| c.name),
        decreases cs.len() - j,
    {
        let ghost prev = names@;
        names.push(cs[j].name.clone());
        assert(names@.map_values(|s: String| s@) =~= prev.map_values(|s: String| s@).push(cs@[j as int]@.name));
        assert(all.take(j + 1).map_values(|c: ContainerView| c.name) =~= all.take(j as int).map_values(|c: ContainerView| c.name).push(cs@[j as int]@.name));
        j += 1;
    }
    assert(all.take(cs@.len() as int) =~= all);
    let idx = sort_indices(&names);
    let ghost target = sort_containers(all);
    let mut out: Vec<Container> = Vec::new();
    let mut k: usize = 0;
    while k < idx.len()
        invariant
            k <= idx@.len() == cs@.len(),
            all == container_views(cs@),
            names@.map_values(|s: String| s@) == all.map_values(|c: ContainerView| c.name),
            forall|q: int| 0 <= q < idx@.len() ==> (idx@[q] as int) == sorted_indices(names@.map_values(|s: String| s@))[q],
            forall|q: int| 0 <= q < idx@.len() ==> idx@[q] < cs@.len(),
            target == sort_containers(all),
            container_views(out@) == target.take(k as int),
        decreases idx.len() - k,
    {
        let c = cs[idx[k]].duplicate();
        let ghost prev = out@;
        out.push(c);
        proof {
            crate::sorting::lemma_sorted_indices(names@.map_values(|s: String| s@));
            assert(target[k as int] == all[idx@[k as int] as int]);
            assert(container_views(out@) =~= container_views(prev).push(target[k as int]));
            assert(target.take(k + 1) =~= target.take(k as int).push(target[k as int]));
        }
        k += 1;
    }
    proof {
        crate::sorting::lemma_sorted_indices(names@.map_values(|s: String| s@));
        assert(target.take(k as int) =~= target);
    }
    out
}


/// The containers come out ordered by name (equal names keep their order), each
/// one of the input exactly once.
pub proof fn law_sort_containers(xs: Seq<ContainerView>)
    ensures
        sort_containers(xs).len() == xs.len(),
        forall|i: int, j: int| 0 <= i < j < xs.len()
            ==> !str_lt(#[trigger] sort_containers(xs)[j].name, #[trigger] sort_containers(xs)[i].name),
        exists|idx: Seq<int>| permutation_of(idx, xs.len())
            && forall|i: int| 0 <= i < xs.len() ==> #[trigger] sort_containers(xs)[i] == xs[idx[i]],
{
    let keys = xs.map_values(|x: ContainerView| x.name);
    let idx = sorted_indices(keys);
    law_sorted_indices(keys);
    let r = sort_containers(xs);
    assert forall|i: int| 0 <= i < xs.len() implies #[trigger] r[i] == xs[idx[i]] by {}
    assert forall|i: int, j: int| 0 <= i < j < xs.len() implies !str_lt(#[trigger] r[j].name, #[trigger] r[i].name) by {
        assert(keys[idx[i]] == r[i].name);
        assert(keys[idx[j]] == r[j].name);
    }
}

/// Container `c` is the one that row `r` of app `app` lists: the row's name
/// has the app's prefix, and the container has the row's name, State,
/// Status and image, its ports split, and the health its status reports.
pub open spec fn lists_row(app: Seq<char>, c: ContainerView, r: RowView) -> bool {
    &&& belongs_to(app, r.names)
    &&& c.name == r.names
    &&& c.state == r.state
    &&& c.status == r.status
    &&& c.image == r.image
    &&& c.ports == spec_ports(r.ports)
    &&& c.health == spec_health(r.status)
}

/// Container `c` is listed by one of the rows.
pub open spec fn from_a_row(app: Seq<char>, c: ContainerView, rows: Seq<RowView>) -> bool {
    exists|j: int| 0 <= j < rows.len() && #[trigger] lists_row(app, c, rows[j])
}

/// Every container of `cs` is listed by one of the rows.
pub open spec fn each_from_a_row(app: Seq<char>, cs: Seq<ContainerView>, rows: Seq<RowView>) -> bool {
    forall|q: int| 0 <= q < cs.len() ==> #[trigger] from_a_row(app, cs[q], rows)
}

/// Every row of the app lists one of the containers of `cs`.
pub open spec fn each_row_listed(app: Seq<char>, cs: Seq<ContainerView>, rows: Seq<RowView>) -> bool {
    forall|j: int| 0 <= j < rows.len() && belongs_to(app, #[trigger] rows[j].names) ==> exists|q: int|
        0 <= q < cs.len() && #[trigger] lists_row(app, cs[q], rows[j])
}

proof fn lemma_app_containers(app: Seq<char>, rows: Seq<RowView>)
    ensures
        each_from_a_row(app, app_containers(app, rows), rows),
        each_row_listed(app, app_containers(app, rows), rows),
    decreases rows.len(),
{
    if rows.len() > 0 {
        let d = rows.drop_last();
        lemma_app_containers(app, d);
        let k = app_containers(app, d);
        let ac = app_containers(app, rows);
        let n = rows.len() - 1;
        assert(rows.last() == rows[n]);
        if belongs_to(app, rows[n].names) {
            assert(ac == k.push(row_container(rows[n])));
        } else {
            assert(ac == k);
        }
        assert forall|q: int| 0 <= q < ac.len() implies #[trigger] from_a_row(app, ac[q], rows) by {
            if q < k.len() {
                assert(ac[q] == k[q]);
                assert(from_a_row(app, k[q], d));
                let j = choose|j: int| 0 <= j < d.len() && #[trigger] lists_row(app, k[q], d[j]);
                assert(rows[j] == d[j]);
                assert(lists_row(app, ac[q], rows[j]));
            } else {
                assert(lists_row(app, ac[q], rows[n]));
            }
        }
        assert forall|j: int| 0 <= j < rows.len() && belongs_to(app, #[trigger] rows[j].names) implies exists|q: int|
            0 <= q < ac.len() && #[trigger] lists_row(app, ac[q], rows[j]) by {
            if j < n {
                assert(d[j] == rows[j]);
                assert(belongs_to(app, d[j].names));
                let q = choose|q: int| 0 <= q < k.len() && #[trigger] lists_row(app, k[q], d[j]);
                assert(ac[q] == k[q]);
                assert(lists_row(app, ac[q], rows[j]));
            } else {
                assert(lists_row(app, ac[k.len() as int], rows[j]));
            }
        }
    }
}

/// The containers listed for an app are exactly its `docker ps` rows: each
/// one is listed by a row whose name has the `<app>-` prefix and carries
/// that row's name, State, Status and image unchanged, and every such row
/// is listed.
#[verifier::rlimit(40)]
pub proof fn law_containers_from_rows(app: Seq<char>, rows: Seq<RowView>)
    ensures
        each_from_a_row(app, sort_containers(app_containers(app, rows)), rows),
        each_row_listed(app, sort_containers(app_containers(app, rows)), rows),
{
    let ac = app_containers(app, rows);
    let out = sort_containers(ac);
    lemma_app_containers(app, rows);
    law_sort_containers(ac);
    let idx = choose|idx: Seq<int>| permutation_of(idx, ac.len())
        && forall|i: int| 0 <= i < ac.len() ==> #[trigger] out[i] == ac[idx[i]];
    assert forall|q: int| 0 <= q < out.len() implies #[trigger] from_a_row(app, out[q], rows) by {
        assert(out[q] == ac[idx[q]]);
        assert(0 <= idx[q] < ac.len());
        assert(from_a_row(app, ac[idx[q]], rows));
        let j = choose|j: int| 0 <= j < rows.len() && #[trigger] lists_row(app, ac[idx[q]], rows[j]);
        assert(lists_row(app, out[q], rows[j]));
    }
    assert forall|j: int| 0 <= j < rows.len() && belongs_to(app, #[trigger] rows[j].names) implies exists|q: int|
        0 <= q < out.len() && #[trigger] lists_row(app, out[q], rows[j]) by {
        let p = choose|p: int| 0 <= p < ac.len() && #[trigger] lists_row(app, ac[p], rows[j]);
        assert(crate::sorting::index_listed(idx, p));
        let q = choose|q: int| 0 <= q < idx.len() && idx[q] == p;
        assert(out[q] == ac[p]);
        assert(lists_row(app, out[q], rows[j]));
    }
}

} // verus!
