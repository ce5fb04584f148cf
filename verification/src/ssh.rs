//! The system `ssh` command lines used for one-shot commands and for the
//! reachability probe, and the friendly text for ssh failures.

use vstd::prelude::*;
use crate::text::{
    contains, owned, push_str, push_string, str_contains, str_to_lowercase, strings_view,
    to_lowercase, trim, chars_of, trim_range, push_range,
};

verus! {

/// The ControlPath pattern inside the control directory, as `Path::join`
/// adds it: with a `/` unless the directory is empty or ends with one.
pub open spec fn spec_control_path(dir: Seq<char>) -> Seq<char> {
    if dir.len() == 0 {
        "%C"@
    } else if dir.last() == '/' {
        dir + "%C"@
    } else {
        dir + "/%C"@
    }
}

fn control_path(dir: &str) -> (r: String)
    ensures
        r@ == spec_control_path(dir@),
{
    let v = chars_of(dir);
    let mut r = owned(dir);
    if v.len() > 0 && v[v.len() - 1] != '/' {
        push_str(&mut r, "/");
        assert(dir@ + "/"@ + "%C"@ =~= dir@ + "/%C"@) by {
            reveal_strlit("/");
            reveal_strlit("%C");
            reveal_strlit("/%C");
        }
    }
    push_str(&mut r, "%C");
    r
}

/// The options of every one-shot ssh command: batch mode, timeouts and
/// connection sharing through the control directory, then `user@host`.
pub open spec fn spec_base_args(dir: Seq<char>, user: Seq<char>, host: Seq<char>) -> Seq<Seq<char>> {
    seq![
        "-o"@, "BatchMode=yes"@,
        "-o"@, "ConnectTimeout=10"@,
        "-o"@, "ServerAliveInterval=30"@,
        "-o"@, "ControlMaster=auto"@,
        "-o"@, "ControlPath="@ + spec_control_path(dir),
        "-o"@, "ControlPersist=600"@,
        user + "@"@ + host,
    ]
}

/// The ssh arguments for a one-shot command to `user@host`.
pub fn base_args(control_dir: &str, user: &str, host: &str) -> (r: Vec<String>)
    ensures
        strings_view(r@) == spec_base_args(control_dir@, user@, host@),
{
    let mut a: Vec<String> = Vec::new();
    push_string(&mut a, owned("-o"));
    push_string(&mut a, owned("BatchMode=yes"));
    push_string(&mut a, owned("-o"));
    push_string(&mut a, owned("ConnectTimeout=10"));
    push_string(&mut a, owned("-o"));
    push_string(&mut a, owned("ServerAliveInterval=30"));
    push_string(&mut a, owned("-o"));
    push_string(&mut a, owned("ControlMaster=auto"));
    push_string(&mut a, owned("-o"));
    let mut cp = owned("ControlPath=");
    push_str(&mut cp, control_path(control_dir).as_str());
    push_string(&mut a, cp);
    push_string(&mut a, owned("-o"));
    push_string(&mut a, owned("ControlPersist=600"));
    let mut t = owned(user);
    push_str(&mut t, "@");
    push_str(&mut t, host);
    push_string(&mut a, t);
    assert(strings_view(a@) =~= spec_base_args(control_dir@, user@, host@));
    a
}

/// The ssh arguments that run `command` on `user@host`.
pub fn exec_args(control_dir: &str, user: &str, host: &str, command: &str) -> (r: Vec<String>)
    ensures
        strings_view(r@) == spec_base_args(control_dir@, user@, host@).push(command@),
{
    let mut a = base_args(control_dir, user, host);
    push_string(&mut a, owned(command));
    a
}

/// The arguments of the fast reachability probe: a short connect timeout,
/// shared connections, and `echo ok`.
pub open spec fn spec_reachable_args(dir: Seq<char>, user: Seq<char>, host: Seq<char>) -> Seq<Seq<char>> {
    seq![
        "-o"@, "BatchMode=yes"@,
        "-o"@, "ConnectTimeout=4"@,
        "-o"@, "ControlMaster=auto"@,
        "-o"@, "ControlPath="@ + spec_control_path(dir),
        "-o"@, "ControlPersist=600"@,
        user + "@"@ + host,
        "echo ok"@,
    ]
}

/// The ssh arguments of the reachability probe.
pub fn reachable_args(control_dir: &str, user: &str, host: &str) -> (r: Vec<String>)
    ensures
        strings_view(r@) == spec_reachable_args(control_dir@, user@, host@),
{
    let mut a: Vec<String> = Vec::new();
    push_string(&mut a, owned("-o"));
    push_string(&mut a, owned("BatchMode=yes"));
    push_string(&mut a, owned("-o"));
    push_string(&mut a, owned("ConnectTimeout=4"));
    push_string(&mut a, owned("-o"));
    push_string(&mut a, owned("ControlMaster=auto"));
    push_string(&mut a, owned("-o"));
    let mut cp = owned("ControlPath=");
    push_str(&mut cp, control_path(control_dir).as_str());
    push_string(&mut a, cp);
    push_string(&mut a, owned("-o"));
    push_string(&mut a, owned("ControlPersist=600"));
    let mut t = owned(user);
    push_str(&mut t, "@");
    push_str(&mut t, host);
    push_string(&mut a, t);
    push_string(&mut a, owned("echo ok"));
    assert(strings_view(a@) =~= spec_reachable_args(control_dir@, user@, host@));
    a
}

/// The message for a failed ssh command, chosen by what its (lowercased)
/// stderr mentions.
pub open spec fn spec_friendly_ssh_error(user: Seq<char>, host: Seq<char>, stderr: Seq<char>) -> Seq<char> {
    let s = str_to_lowercase(stderr);
    let target = user + "@"@ + host;
    if contains(s, "permission denied"@) {
        "SSH permission denied for "@ + target + " \u{2014} is your key added (ssh-add) or in ~/.ssh/config?"@
    } else if contains(s, "connection refused"@) {
        "Connection refused by "@ + target + " \u{2014} is SSH running on port 22?"@
    } else if contains(s, "connection timed out"@) || contains(s, "operation timed out"@) {
        "Connection timed out to "@ + target + " \u{2014} host unreachable or firewalled"@
    } else if contains(s, "host is down"@) || contains(s, "no route to host"@) {
        "Host "@ + target + " is unreachable"@
    } else if contains(s, "could not resolve hostname"@) || contains(s, "name or service not known"@) {
        "Cannot resolve hostname in "@ + target
    } else if contains(s, "host key verification failed"@) {
        "Host key mismatch for "@ + target + " \u{2014} check ~/.ssh/known_hosts"@
    } else {
        "ssh "@ + target + " failed: "@ + trim(stderr)
    }
}

/// Turns ssh's stderr into a message that says what to check.
pub fn friendly_ssh_error(user: &str, host: &str, stderr: &str) -> (r: String)
    ensures
        r@ == spec_friendly_ssh_error(user@, host@, stderr@),
{
    let s = to_lowercase(stderr);
    let s = s.as_str();
    let mut target = owned(user);
    push_str(&mut target, "@");
    push_str(&mut target, host);
    let t = target.as_str();
    let mut m;
    if str_contains(s, "permission denied") {
        m = owned("SSH permission denied for ");
        push_str(&mut m, t);
        push_str(&mut m, " \u{2014} is your key added (ssh-add) or in ~/.ssh/config?");
    } else if str_contains(s, "connection refused") {
        m = owned("Connection refused by ");
        push_str(&mut m, t);
        push_str(&mut m, " \u{2014} is SSH running on port 22?");
    } else if str_contains(s, "connection timed out") || str_contains(s, "operation timed out") {
        m = owned("Connection timed out to ");
        push_str(&mut m, t);
        push_str(&mut m, " \u{2014} host unreachable or firewalled");
    } else if str_contains(s, "host is down") || str_contains(s, "no route to host") {
        m = owned("Host ");
        push_str(&mut m, t);
        push_str(&mut m, " is unreachable");
    } else if str_contains(s, "could not resolve hostname") || str_contains(s, "name or service not known") {
        m = owned("Cannot resolve hostname in ");
        push_str(&mut m, t);
    } else if str_contains(s, "host key verification failed") {
        m = owned("Host key mismatch for ");
        push_str(&mut m, t);
        push_str(&mut m, " \u{2014} check ~/.ssh/known_hosts");
    } else {
        m = owned("ssh ");
        push_str(&mut m, t);
        push_str(&mut m, " failed: ");
        let v = chars_of(stderr);
        assert(v@.subrange(0, v@.len() as int) =~= v@);
        let (a, b) = trim_range(&v, 0, v.len());
        push_range(&mut m, &v, a, b);
    }
    m
}

} // verus!
