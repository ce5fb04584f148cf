//! Where the files that Bishop scaffolds live inside a project (the places
//! the deploy CLI looks for them), and which shared infrastructure files a
//! project has.

use vstd::prelude::*;

verus! {

/// The compose file sent to the server, used for every environment.
pub fn compose_rel() -> (r: &'static str)
    ensures
        r@ == ".deploy/infra/docker-compose.prod.yml"@,
{
    ".deploy/infra/docker-compose.prod.yml"
}

/// The Dockerfile at the project root.
pub fn dockerfile_rel() -> (r: &'static str)
    ensures
        r@ == "Dockerfile"@,
{
    "Dockerfile"
}

/// The compose file of the shared Traefik, Postgres and Redis stack.
pub fn shared_compose_rel() -> (r: &'static str)
    ensures
        r@ == ".deploy/infra/shared/docker-compose.yml"@,
{
    ".deploy/infra/shared/docker-compose.yml"
}

/// The script that creates the databases of the shared Postgres.
pub fn shared_init_db_rel() -> (r: &'static str)
    ensures
        r@ == ".deploy/infra/shared/init-databases.sh"@,
{
    ".deploy/infra/shared/init-databases.sh"
}

/// The Traefik configuration of the shared stack.
pub fn shared_traefik_rel() -> (r: &'static str)
    ensures
        r@ == ".deploy/infra/shared/traefik/traefik.yml"@,
{
    ".deploy/infra/shared/traefik/traefik.yml"
}

/// The `.dockerignore` at the project root.
pub fn dockerignore_rel() -> (r: &'static str)
    ensures
        r@ == ".dockerignore"@,
{
    ".dockerignore"
}

/// Which of the shared infrastructure files a project has.
#[derive(Debug, Clone, Copy)]
pub struct SharedStatus {
    pub compose: bool,
    pub init_db: bool,
    pub traefik: bool,
}

impl SharedStatus {
    /// The status of a project path that is not an existing directory.
    pub fn absent() -> (r: SharedStatus)
        ensures
            !r.compose && !r.init_db && !r.traefik,
    {
        SharedStatus { compose: false, init_db: false, traefik: false }
    }

    /// Whether all three shared files are present.
    pub fn complete(&self) -> (b: bool)
        ensures
            b == (self.compose && self.traefik && self.init_db),
    {
        self.compose && self.traefik && self.init_db
    }
}

} // verus!
