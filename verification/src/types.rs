//! The project model shown in the app: a project directory with its deploy
//! environments, and the containers running for an environment.

use vstd::prelude::*;

verus! {

/// A project directory that holds a `.deploy/` configuration.
#[derive(Debug, Clone)]
pub struct Project {
    pub path: String,
    pub name: String,
    pub git_repo: Option<String>,
    pub remotes: Vec<Environment>,
}

/// One deploy target of a project, read from `.deploy/remotes/<name>`.
#[derive(Debug, Clone)]
pub struct Environment {
    pub name: String,
    pub ssh_user: String,
    pub ssh_host: String,
    pub app_name: String,
    pub domain: Option<String>,
    pub app_dir: String,
}

/// A container of an app, as `docker ps` reports it.
#[derive(Debug, Clone)]
pub struct Container {
    pub name: String,
    pub state: String,
    pub status: String,
    pub image: String,
    pub ports: Vec<String>,
    pub health: Option<String>,
}

/// The mathematical value of an [`Environment`].
pub struct EnvironmentView {
    pub name: Seq<char>,
    pub ssh_user: Seq<char>,
    pub ssh_host: Seq<char>,
    pub app_name: Seq<char>,
    pub domain: Option<Seq<char>>,
    pub app_dir: Seq<char>,
}

pub open spec fn opt_view(o: Option<String>) -> Option<Seq<char>> {
    match o {
        Some(s) => Some(s@),
        None => None,
    }
}

impl View for Environment {
    type V = EnvironmentView;

    open spec fn view(&self) -> EnvironmentView {
        EnvironmentView {
            name: self.name@,
            ssh_user: self.ssh_user@,
            ssh_host: self.ssh_host@,
            app_name: self.app_name@,
            domain: opt_view(self.domain),
            app_dir: self.app_dir@,
        }
    }
}

} // verus!
