//! Who did something: the actor recorded with deploys and audit lines,
//! `user@hostname` of this machine.

use vstd::prelude::*;
use crate::text::{owned, push_str};

verus! {

/// The current user's name, from `whoami::username` (which falls back to a
/// default name itself); nothing is stated of it.
#[verifier::external_body]
fn current_username() -> (r: String) {
    whoami::username()
}

/// The machine's host name from `whoami::fallible::hostname`, or `None`
/// when it cannot be read; nothing is stated of it.
#[verifier::external_body]
fn current_hostname() -> (r: Option<String>) {
    whoami::fallible::hostname().ok()
}

/// The actor for a user name and a host name, `unknown` standing for a
/// host name that could not be read.
pub open spec fn spec_actor_label(user: Seq<char>, host: Option<Seq<char>>) -> Seq<char> {
    user + "@"@ + match host {
        Some(h) => h,
        None => "unknown"@,
    }
}

/// `user@host`, with `unknown` for a missing host name.
pub fn actor_label(user: &str, host: Option<&str>) -> (r: String)
    ensures
        r@ == spec_actor_label(user@, match host { Some(h) => Some(h@), None => None }),
{
    let mut r = owned(user);
    push_str(&mut r, "@");
    match host {
        Some(h) => push_str(&mut r, h),
        None => push_str(&mut r, "unknown"),
    }
    r
}

/// A stable identity for this machine and user, `$USER@hostname`, so the
/// column still means something once several people deploy.
pub fn actor_id() -> (r: String)
    ensures
        exists|u: Seq<char>, h: Option<Seq<char>>| r@ == spec_actor_label(u, h),
{
    let user = current_username();
    let host = current_hostname();
    let r = match &host {
        Some(h) => actor_label(user.as_str(), Some(h.as_str())),
        None => actor_label(user.as_str(), None),
    };
    r
}

} // verus!
