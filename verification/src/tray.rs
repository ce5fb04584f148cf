//! The system-tray menu: its entries as data (projects with their
//! environments, saved hosts, ssh_config aliases, window controls), and the
//! item ids, which encode the action so that a chosen item can be
//! dispatched:
//!
//! - `show`, `hide`, `quit`
//! - `open-project:<path>`
//! - `open-env:<path>::<env>`
//! - `connect-host:<id>` (a saved host)
//! - `connect-alias:<alias>` (an ssh_config alias)

use vstd::prelude::*;
use crate::hosts::{host_views, HostView, SshConfigHost};
use crate::remote::env_views;
use crate::store::{hosts_view, SavedHost, SavedHostView};
use crate::text::{chars_of, owned, push_str, starts_with, str_eq, str_starts_with, string_of_range};
use crate::types::{Environment, EnvironmentView, Project};

verus! {

/// What choosing a tray item does.
#[derive(Debug, Clone)]
pub enum TrayAction {
    Show,
    Hide,
    Quit,
    OpenProject(String),
    OpenEnv { project_path: String, env: String },
    ConnectHost(String),
    ConnectAlias(String),
    /// An id that names no action.
    Ignore,
}

/// The mathematical value of a [`TrayAction`].
pub enum ActionView {
    Show,
    Hide,
    Quit,
    OpenProject(Seq<char>),
    OpenEnv { project_path: Seq<char>, env: Seq<char> },
    ConnectHost(Seq<char>),
    ConnectAlias(Seq<char>),
    Ignore,
}

impl View for TrayAction {
    type V = ActionView;

    open spec fn view(&self) -> ActionView {
        match self {
            TrayAction::Show => ActionView::Show,
            TrayAction::Hide => ActionView::Hide,
            TrayAction::Quit => ActionView::Quit,
            TrayAction::OpenProject(p) => ActionView::OpenProject(p@),
            TrayAction::OpenEnv { project_path, env } => ActionView::OpenEnv {
                project_path: project_path@,
                env: env@,
            },
            TrayAction::ConnectHost(h) => ActionView::ConnectHost(h@),
            TrayAction::ConnectAlias(a) => ActionView::ConnectAlias(a@),
            TrayAction::Ignore => ActionView::Ignore,
        }
    }
}

/// Position of the first `::` in the text, or -1.
pub open spec fn first_double_colon(s: Seq<char>) -> int
    decreases s.len(),
{
    if s.len() < 2 {
        -1
    } else if s[0] == ':' && s[1] == ':' {
        0
    } else {
        let r = first_double_colon(s.drop_first());
        if r < 0 { -1 } else { r + 1 }
    }
}

/// A `::` starts at `i`.
pub open spec fn double_colon_at(s: Seq<char>, i: int) -> bool {
    0 <= i && i + 1 < s.len() && s[i] == ':' && s[i + 1] == ':'
}

pub proof fn lemma_first_double_colon(s: Seq<char>)
    ensures
        -1 <= first_double_colon(s) < s.len(),
        first_double_colon(s) >= 0 ==> double_colon_at(s, first_double_colon(s)),
        forall|j: int| 0 <= j && (first_double_colon(s) < 0 || j < first_double_colon(s))
            ==> !double_colon_at(s, j),
    decreases s.len(),
{
    if s.len() >= 2 && !(s[0] == ':' && s[1] == ':') {
        lemma_first_double_colon(s.drop_first());
        assert forall|j: int| 0 <= j && (first_double_colon(s) < 0 || j < first_double_colon(s))
            implies !double_colon_at(s, j) by {
            if j > 0 && double_colon_at(s, j) {
                assert(double_colon_at(s.drop_first(), j - 1));
            }
        }
    }
}

/// `first_double_colon` is determined by where `::` first occurs.
pub proof fn lemma_first_double_colon_at(s: Seq<char>, i: int)
    requires
        i == -1 || double_colon_at(s, i),
        forall|j: int| 0 <= j && (i < 0 || j < i) ==> !double_colon_at(s, j),
    ensures
        first_double_colon(s) == i,
{
    lemma_first_double_colon(s);
    let r = first_double_colon(s);
    if r >= 0 && (i < 0 || r < i) {
        assert(!double_colon_at(s, r));
    }
    if i >= 0 && (r < 0 || i < r) {
        assert(!double_colon_at(s, i));
    }
}

/// What an item id asks for.
pub open spec fn spec_parse_menu_id(id: Seq<char>) -> ActionView {
    if id == "show"@ {
        ActionView::Show
    } else if id == "hide"@ {
        ActionView::Hide
    } else if id == "quit"@ {
        ActionView::Quit
    } else if starts_with(id, "open-project:"@) {
        ActionView::OpenProject(id.skip("open-project:"@.len() as int))
    } else if starts_with(id, "open-env:"@) {
        let rest = id.skip("open-env:"@.len() as int);
        let i = first_double_colon(rest);
        if i < 0 {
            ActionView::Ignore
        } else {
            ActionView::OpenEnv { project_path: rest.take(i), env: rest.skip(i + 2) }
        }
    } else if starts_with(id, "connect-host:"@) {
        ActionView::ConnectHost(id.skip("connect-host:"@.len() as int))
    } else if starts_with(id, "connect-alias:"@) {
        ActionView::ConnectAlias(id.skip("connect-alias:"@.len() as int))
    } else {
        ActionView::Ignore
    }
}

/// The text after `prefix`, when `s` starts with it.
fn after_prefix(s: &str, prefix: &str) -> (r: Option<String>)
    ensures
        match r {
            Some(t) => starts_with(s@, prefix@) && t@ == s@.skip(prefix@.len() as int),
            None => !starts_with(s@, prefix@),
        },
{
    if str_starts_with(s, prefix) {
        let v = chars_of(s);
        let n = chars_of(prefix).len();
        let t = string_of_range(&v, n, v.len());
        assert(t@ =~= s@.skip(prefix@.len() as int));
        Some(t)
    } else {
        None
    }
}

/// Splits at the first `::`.
fn split_double_colon(s: &str) -> (r: Option<(String, String)>)
    ensures
        match r {
            Some(p) => first_double_colon(s@) >= 0
                && p.0@ == s@.take(first_double_colon(s@))
                && p.1@ == s@.skip(first_double_colon(s@) + 2),
            None => first_double_colon(s@) < 0,
        },
{
    let v = chars_of(s);
    let mut i: usize = 0;
    while v.len() - i > 1
        invariant
            v@ == s@,
            i <= v@.len(),
            forall|j: int| 0 <= j < i ==> !double_colon_at(s@, j),
        decreases v.len() - i,
    {
        if v[i] == ':' && v[i + 1] == ':' {
            proof {
                lemma_first_double_colon_at(s@, i as int);
            }
            let a = string_of_range(&v, 0, i);
            let b = string_of_range(&v, i + 2, v.len());
            assert(a@ =~= s@.take(i as int));
            assert(b@ =~= s@.skip(i + 2));
            return Some((a, b));
        }
        i += 1;
    }
    proof {
        lemma_first_double_colon_at(s@, -1);
    }
    None
}

/// The action of a chosen tray item.
pub fn parse_menu_id(id: &str) -> (r: TrayAction)
    ensures
        r@ == spec_parse_menu_id(id@),
{
    if str_eq(id, "show") {
        return TrayAction::Show;
    }
    if str_eq(id, "hide") {
        return TrayAction::Hide;
    }
    if str_eq(id, "quit") {
        return TrayAction::Quit;
    }
    if let Some(p) = after_prefix(id, "open-project:") {
        return TrayAction::OpenProject(p);
    }
    if let Some(rest) = after_prefix(id, "open-env:") {
        return match split_double_colon(rest.as_str()) {
            Some((project_path, env)) => TrayAction::OpenEnv { project_path, env },
            None => TrayAction::Ignore,
        };
    }
    if let Some(h) = after_prefix(id, "connect-host:") {
        return TrayAction::ConnectHost(h);
    }
    if let Some(a) = after_prefix(id, "connect-alias:") {
        return TrayAction::ConnectAlias(a);
    }
    TrayAction::Ignore
}

pub open spec fn spec_open_project_id(path: Seq<char>) -> Seq<char> {
    "open-project:"@ + path
}

pub open spec fn spec_open_env_id(path: Seq<char>, env: Seq<char>) -> Seq<char> {
    "open-env:"@ + path + "::"@ + env
}

pub open spec fn spec_connect_host_id(id: Seq<char>) -> Seq<char> {
    "connect-host:"@ + id
}

pub open spec fn spec_connect_alias_id(alias: Seq<char>) -> Seq<char> {
    "connect-alias:"@ + alias
}

/// The id of the item that opens a project.
pub fn open_project_id(path: &str) -> (r: String)
    ensures
        r@ == spec_open_project_id(path@),
{
    let mut r = owned("open-project:");
    push_str(&mut r, path);
    r
}

/// The id of the item that opens an environment of a project.
pub fn open_env_id(path: &str, env: &str) -> (r: String)
    ensures
        r@ == spec_open_env_id(path@, env@),
{
    let mut r = owned("open-env:");
    push_str(&mut r, path);
    push_str(&mut r, "::");
    push_str(&mut r, env);
    r
}

/// The id of the item that connects to a saved host.
pub fn connect_host_id(id: &str) -> (r: String)
    ensures
        r@ == spec_connect_host_id(id@),
{
    let mut r = owned("connect-host:");
    push_str(&mut r, id);
    r
}

/// The id of the item that connects to an ssh_config alias.
pub fn connect_alias_id(alias: &str) -> (r: String)
    ensures
        r@ == spec_connect_alias_id(alias@),
{
    let mut r = owned("connect-alias:");
    push_str(&mut r, alias);
    r
}

/// The item of a project dispatches to that project.
pub proof fn law_open_project_id(path: Seq<char>)
    ensures
        spec_parse_menu_id(spec_open_project_id(path)) == ActionView::OpenProject(path),
{
    reveal_strlit("show");
    reveal_strlit("hide");
    reveal_strlit("quit");
    reveal_strlit("open-project:");
    let id = spec_open_project_id(path);
    assert(id[0] == 'o');
    assert(id.take("open-project:"@.len() as int) =~= "open-project:"@);
    assert(id.skip("open-project:"@.len() as int) =~= path);
}

/// The item of an environment dispatches to that project and environment,
/// for every project path without a `::` and not ending in `:` (the path
/// ends at the first `::` of the id).
pub proof fn law_open_env_id(path: Seq<char>, env: Seq<char>)
    requires
        forall|j: int| !double_colon_at(path, j),
        path.len() == 0 || path.last() != ':',
    ensures
        spec_parse_menu_id(spec_open_env_id(path, env))
            == (ActionView::OpenEnv { project_path: path, env }),
{
    reveal_strlit("show");
    reveal_strlit("hide");
    reveal_strlit("quit");
    reveal_strlit("open-project:");
    reveal_strlit("open-env:");
    reveal_strlit("::");
    let id = spec_open_env_id(path, env);
    assert(id[0] == 'o');
    assert(id[5] == 'e');
    assert(!starts_with(id, "open-project:"@)) by {
        if starts_with(id, "open-project:"@) {
            assert(id.take(13)[5] == 'p');
        }
    }
    assert(id.take("open-env:"@.len() as int) =~= "open-env:"@);
    let rest = id.skip("open-env:"@.len() as int);
    assert(rest =~= path + "::"@ + env);
    assert forall|j: int| 0 <= j && j < path.len() implies !double_colon_at(rest, j) by {
        if double_colon_at(rest, j) {
            if j + 1 < path.len() {
                assert(double_colon_at(path, j));
            } else {
                assert(rest[j] == path[j]);
                assert(path.last() == path[j]);
            }
        }
    }
    assert(double_colon_at(rest, path.len() as int));
    lemma_first_double_colon_at(rest, path.len() as int);
    assert(rest.take(path.len() as int) =~= path);
    assert(rest.skip(path.len() as int + 2) =~= env);
}

/// The item of a saved host dispatches to that host.
pub proof fn law_connect_host_id(id: Seq<char>)
    ensures
        spec_parse_menu_id(spec_connect_host_id(id)) == ActionView::ConnectHost(id),
{
    reveal_strlit("show");
    reveal_strlit("hide");
    reveal_strlit("quit");
    reveal_strlit("open-project:");
    reveal_strlit("open-env:");
    reveal_strlit("connect-host:");
    let s = spec_connect_host_id(id);
    assert(s[0] == 'c');
    assert(!starts_with(s, "open-project:"@)) by {
        if starts_with(s, "open-project:"@) {
            assert(s.take(13)[0] == 'o');
        }
    }
    assert(!starts_with(s, "open-env:"@)) by {
        if starts_with(s, "open-env:"@) {
            assert(s.take(9)[0] == 'o');
        }
    }
    assert(s.take("connect-host:"@.len() as int) =~= "connect-host:"@);
    assert(s.skip("connect-host:"@.len() as int) =~= id);
}

/// The item of an ssh_config alias dispatches to that alias.
pub proof fn law_connect_alias_id(alias: Seq<char>)
    ensures
        spec_parse_menu_id(spec_connect_alias_id(alias)) == ActionView::ConnectAlias(alias),
{
    reveal_strlit("show");
    reveal_strlit("hide");
    reveal_strlit("quit");
    reveal_strlit("open-project:");
    reveal_strlit("open-env:");
    reveal_strlit("connect-host:");
    reveal_strlit("connect-alias:");
    let s = spec_connect_alias_id(alias);
    assert(s[0] == 'c');
    assert(!starts_with(s, "open-project:"@)) by {
        if starts_with(s, "open-project:"@) {
            assert(s.take(13)[0] == 'o');
        }
    }
    assert(!starts_with(s, "open-env:"@)) by {
        if starts_with(s, "open-env:"@) {
            assert(s.take(9)[0] == 'o');
        }
    }
    assert(!starts_with(s, "connect-host:"@)) by {
        if starts_with(s, "connect-host:"@) {
            assert(s.take(13)[8] == 'h');
        }
    }
    assert(s.take("connect-alias:"@.len() as int) =~= "connect-alias:"@);
    assert(s.skip("connect-alias:"@.len() as int) =~= alias);
}


/// A clickable menu item.
#[derive(Debug, Clone)]
pub struct MenuItemSpec {
    pub id: String,
    pub label: String,
    pub enabled: bool,
    pub accelerator: Option<String>,
}

/// An entry of a submenu.
#[derive(Debug, Clone)]
pub enum SubEntry {
    Item(MenuItemSpec),
    Separator,
}

/// An entry of the tray menu.
#[derive(Debug, Clone)]
pub enum MenuEntry {
    Item(MenuItemSpec),
    Separator,
    Submenu { title: String, items: Vec<SubEntry> },
}

/// The mathematical value of a [`MenuItemSpec`].
pub struct ItemView {
    pub id: Seq<char>,
    pub label: Seq<char>,
    pub enabled: bool,
    pub accelerator: Option<Seq<char>>,
}

/// The mathematical value of a [`SubEntry`].
pub enum SubView {
    Item(ItemView),
    Separator,
}

/// The mathematical value of a [`MenuEntry`].
pub enum EntryView {
    Item(ItemView),
    Separator,
    Submenu { title: Seq<char>, items: Seq<SubView> },
}

impl View for MenuItemSpec {
    type V = ItemView;

    open spec fn view(&self) -> ItemView {
        ItemView {
            id: self.id@,
            label: self.label@,
            enabled: self.enabled,
            accelerator: match self.accelerator {
                Some(a) => Some(a@),
                None => None,
            },
        }
    }
}

impl View for SubEntry {
    type V = SubView;

    open spec fn view(&self) -> SubView {
        match self {
            SubEntry::Item(i) => SubView::Item(i@),
            SubEntry::Separator => SubView::Separator,
        }
    }
}

pub open spec fn sub_views(s: Seq<SubEntry>) -> Seq<SubView> {
    s.map_values(|e: SubEntry| e@)
}

impl View for MenuEntry {
    type V = EntryView;

    open spec fn view(&self) -> EntryView {
        match self {
            MenuEntry::Item(i) => EntryView::Item(i@),
            MenuEntry::Separator => EntryView::Separator,
            MenuEntry::Submenu { title, items } => EntryView::Submenu {
                title: title@,
                items: sub_views(items@),
            },
        }
    }
}

pub open spec fn entry_views(s: Seq<MenuEntry>) -> Seq<EntryView> {
    s.map_values(|e: MenuEntry| e@)
}

/// An enabled item without a shortcut.
pub open spec fn spec_item(id: Seq<char>, label: Seq<char>) -> ItemView {
    ItemView { id, label, enabled: true, accelerator: None }
}

fn item(id: String, label: String) -> (r: MenuItemSpec)
    ensures
        r@ == spec_item(id@, label@),
{
    MenuItemSpec { id, label, enabled: true, accelerator: None }
}

/// `<name>  —  <user>@<host>`.
pub open spec fn spec_target_label(name: Seq<char>, user: Seq<char>, host: Seq<char>) -> Seq<char> {
    name + "  \u{2014}  "@ + user + "@"@ + host
}

fn target_label(name: &str, user: &str, host: &str) -> (r: String)
    ensures
        r@ == spec_target_label(name@, user@, host@),
{
    let mut r = owned(name);
    push_str(&mut r, "  \u{2014}  ");
    push_str(&mut r, user);
    push_str(&mut r, "@");
    push_str(&mut r, host);
    r
}

/// The item of an environment inside its project's submenu.
pub open spec fn spec_env_item(path: Seq<char>, e: EnvironmentView) -> SubView {
    SubView::Item(spec_item(spec_open_env_id(path, e.name), spec_target_label(e.name, e.ssh_user, e.ssh_host)))
}

/// A project's submenu: open the project, a separator, then one item per
/// environment.
pub open spec fn spec_project_submenu(path: Seq<char>, name: Seq<char>, envs: Seq<EnvironmentView>) -> EntryView {
    EntryView::Submenu {
        title: name,
        items: seq![SubView::Item(spec_item(spec_open_project_id(path), "Open in Bishop"@)), SubView::Separator]
            + envs.map_values(|e: EnvironmentView| spec_env_item(path, e)),
    }
}

/// The submenus of the projects that could be loaded, in the stored order.
/// A project is given as its stored path and, when it loaded, its content.
pub open spec fn project_entries(ps: Seq<(String, Option<Project>)>) -> Seq<EntryView>
    decreases ps.len(),
{
    if ps.len() == 0 {
        seq![]
    } else {
        let rest = project_entries(ps.drop_last());
        match ps.last().1 {
            Some(p) => rest.push(spec_project_submenu(ps.last().0@, p.name@, env_views(p.remotes@))),
            None => rest,
        }
    }
}

/// The item of a saved host.
pub open spec fn spec_host_item(h: SavedHostView) -> SubView {
    SubView::Item(spec_item(spec_connect_host_id(h.id), spec_target_label(h.label, h.user, h.host)))
}

/// The item of an ssh_config alias.
pub open spec fn spec_alias_item(h: HostView) -> SubView {
    SubView::Item(spec_item(spec_connect_alias_id(h.alias), h.alias))
}

/// The whole tray menu: the project submenus (or a disabled placeholder), a
/// separator, the saved hosts and the first 50 ssh_config aliases in
/// submenus of their own when there are any (then a separator), and the
/// window controls.
pub open spec fn spec_tray_menu(
    ps: Seq<(String, Option<Project>)>,
    saved: Seq<SavedHostView>,
    aliases: Seq<HostView>,
) -> Seq<EntryView> {
    let projects = project_entries(ps);
    let head = if projects.len() == 0 {
        seq![EntryView::Item(ItemView { id: "noop-projects"@, label: "No projects yet"@, enabled: false, accelerator: None })]
    } else {
        projects
    };
    let shown = if aliases.len() > 50 { aliases.take(50) } else { aliases };
    let saved_part = if saved.len() == 0 {
        seq![]
    } else {
        seq![EntryView::Submenu { title: "Saved hosts"@, items: saved.map_values(|h: SavedHostView| spec_host_item(h)) }]
    };
    let alias_part = if aliases.len() == 0 {
        seq![]
    } else {
        seq![EntryView::Submenu { title: "SSH config"@, items: shown.map_values(|h: HostView| spec_alias_item(h)) }]
    };
    let gap = if saved.len() > 0 || aliases.len() > 0 { seq![EntryView::Separator] } else { seq![] };
    head + seq![EntryView::Separator] + saved_part + alias_part + gap + seq![
        EntryView::Item(spec_item("show"@, "Show Bishop"@)),
        EntryView::Item(spec_item("hide"@, "Hide"@)),
        EntryView::Separator,
        EntryView::Item(ItemView { id: "quit"@, label: "Quit Bishop"@, enabled: true, accelerator: Some("CmdOrCtrl+Q"@) }),
    ]
}

/// A project's submenu.
fn project_submenu(path: &str, project: &Project) -> (r: MenuEntry)
    ensures
        r@ == spec_project_submenu(path@, project.name@, env_views(project.remotes@)),
{
    let mut items: Vec<SubEntry> = Vec::new();
    items.push(SubEntry::Item(item(open_project_id(path), owned("Open in Bishop"))));
    items.push(SubEntry::Separator);
    let ghost envs = env_views(project.remotes@);
    let ghost f = |e: EnvironmentView| spec_env_item(path@, e);
    let ghost head = seq![SubView::Item(spec_item(spec_open_project_id(path@), "Open in Bishop"@)), SubView::Separator];
    assert(sub_views(items@) =~= head + envs.take(0).map_values(f));
    let mut j: usize = 0;
    while j < project.remotes.len()
        invariant
            j <= project.remotes@.len(),
            envs == env_views(project.remotes@),
            f == (|e: EnvironmentView| spec_env_item(path@, e)),
            sub_views(items@) == head + envs.take(j as int).map_values(f),
        decreases project.remotes.len() - j,
    {
        let e: &Environment = &project.remotes[j];
        let id = open_env_id(path, e.name.as_str());
        let label = target_label(e.name.as_str(), e.ssh_user.as_str(), e.ssh_host.as_str());
        let ghost before = items@;
        items.push(SubEntry::Item(item(id, label)));
        assert(items@.drop_last() =~= before);
        assert(envs[j as int] == e@);
        assert(items@.last()@ == f(envs[j as int]));
        assert(envs.take(j + 1).map_values(f) =~= envs.take(j as int).map_values(f).push(f(envs[j as int])));
        assert(sub_views(items@) =~= sub_views(items@.drop_last()).push(items@.last()@));
        assert(sub_views(items@) =~= head + envs.take(j + 1).map_values(f));
        j += 1;
    }
    assert(envs.take(j as int) =~= envs);
    MenuEntry::Submenu { title: project.name.clone(), items }
}

/// The tray menu for the stored projects (each with its content when it
/// loaded), the saved hosts and the ssh_config hosts.
pub fn tray_menu(
    projects: &Vec<(String, Option<Project>)>,
    saved: &Vec<SavedHost>,
    aliases: &Vec<SshConfigHost>,
) -> (r: Vec<MenuEntry>)
    ensures
        entry_views(r@) == spec_tray_menu(projects@, hosts_view(saved@), host_views(aliases@)),
{
    let mut menu: Vec<MenuEntry> = Vec::new();
    let mut i: usize = 0;
    assert(projects@.take(0) =~= Seq::<(String, Option<Project>)>::empty());
    while i < projects.len()
        invariant
            i <= projects@.len(),
            entry_views(menu@) == project_entries(projects@.take(i as int)),
        decreases projects.len() - i,
    {
        assert(projects@.take(i + 1).drop_last() =~= projects@.take(i as int));
        match &projects[i].1 {
            Some(p) => {
                let sub = project_submenu(projects[i].0.as_str(), p);
                menu.push(sub);
                assert(entry_views(menu@) =~= entry_views(menu@.drop_last()).push(menu@.last()@));
            },
            None => {},
        }
        i += 1;
    }
    assert(projects@.take(i as int) =~= projects@);
    let ghost projects_part = entry_views(menu@);
    if menu.len() == 0 {
        menu.push(MenuEntry::Item(MenuItemSpec {
            id: owned("noop-projects"),
            label: owned("No projects yet"),
            enabled: false,
            accelerator: None,
        }));
    }
    let ghost head = entry_views(menu@);
    menu.push(MenuEntry::Separator);
    let ghost after_head = entry_views(menu@);
    assert(after_head =~= head + seq![EntryView::Separator]);

    let ghost sv = hosts_view(saved@);
    let ghost fs = |h: SavedHostView| spec_host_item(h);
    if saved.len() > 0 {
        let mut items: Vec<SubEntry> = Vec::new();
        let mut k: usize = 0;
        while k < saved.len()
            invariant
                k <= saved@.len(),
                sv == hosts_view(saved@),
                fs == (|h: SavedHostView| spec_host_item(h)),
                sub_views(items@) == sv.take(k as int).map_values(fs),
            decreases saved.len() - k,
        {
            let h: &SavedHost = &saved[k];
            let it = item(connect_host_id(h.id.as_str()), target_label(h.label.as_str(), h.user.as_str(), h.host.as_str()));
            items.push(SubEntry::Item(it));
            assert(sv.take(k + 1).map_values(fs) =~= sv.take(k as int).map_values(fs).push(fs(sv[k as int])));
            assert(sub_views(items@) =~= sub_views(items@.drop_last()).push(items@.last()@));
            k += 1;
        }
        assert(sv.take(k as int) =~= sv);
        menu.push(MenuEntry::Submenu { title: owned("Saved hosts"), items });
    }
    let ghost after_saved = entry_views(menu@);

    let ghost av = host_views(aliases@);
    let ghost fa = |h: HostView| spec_alias_item(h);
    let limit: usize = if aliases.len() > 50 { 50 } else { aliases.len() };
    if aliases.len() > 0 {
        let mut items: Vec<SubEntry> = Vec::new();
        let mut k: usize = 0;
        while k < limit
            invariant
                k <= limit <= aliases@.len(),
                av == host_views(aliases@),
                fa == (|h: HostView| spec_alias_item(h)),
                sub_views(items@) == av.take(k as int).map_values(fa),
            decreases limit - k,
        {
            let h: &SshConfigHost = &aliases[k];
            let it = item(connect_alias_id(h.alias.as_str()), h.alias.clone());
            items.push(SubEntry::Item(it));
            assert(av.take(k + 1).map_values(fa) =~= av.take(k as int).map_values(fa).push(fa(av[k as int])));
            assert(sub_views(items@) =~= sub_views(items@.drop_last()).push(items@.last()@));
            k += 1;
        }
        assert(av.take(limit as int) =~= (if av.len() > 50 { av.take(50) } else { av }));
        menu.push(MenuEntry::Submenu { title: owned("SSH config"), items });
    }
    let ghost after_aliases = entry_views(menu@);
    if saved.len() > 0 || aliases.len() > 0 {
        menu.push(MenuEntry::Separator);
    }
    let ghost after_gap = entry_views(menu@);
    menu.push(MenuEntry::Item(item(owned("show"), owned("Show Bishop"))));
    menu.push(MenuEntry::Item(item(owned("hide"), owned("Hide"))));
    menu.push(MenuEntry::Separator);
    menu.push(MenuEntry::Item(MenuItemSpec {
        id: owned("quit"),
        label: owned("Quit Bishop"),
        enabled: true,
        accelerator: Some(owned("CmdOrCtrl+Q")),
    }));
    assert(entry_views(menu@) =~= spec_tray_menu(projects@, hosts_view(saved@), host_views(aliases@)));
    menu
}

} // verus!
