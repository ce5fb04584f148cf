//! Decisions around deploy runs, service restarts, log and metrics streams
//! and the CLI step runner: which environment is meant, which remote command
//! is sent, how an output line is shown, and how a finished run is reported.

use vstd::prelude::*;
use crate::text::{
    chars_of, owned, push_str, shell_quote, spec_shell_quote, starts_with, str_eq, str_starts_with,
    string_of_range, trim, trim_str,
};
use crate::types::{Environment, Project};

verus! {

/// The refusal of an environment name that the project does not have.
pub open spec fn missing_env_message(name: Seq<char>) -> Seq<char> {
    "environment '"@ + name + "' not found"@
}

/// The first environment of the project with the given name.
pub fn find_environment(project: &Project, name: &str) -> (r: Result<Environment, String>)
    ensures
        match r {
            Ok(e) => exists|i: int|
                0 <= i < project.remotes@.len() && #[trigger] project.remotes@[i]@ == e@
                    && e@.name == name@
                    && forall|j: int| 0 <= j < i ==> project.remotes@[j]@.name != name@,
            Err(m) => m@ == missing_env_message(name@)
                && forall|j: int| 0 <= j < project.remotes@.len() ==> project.remotes@[j]@.name != name@,
        },
{
    let mut i: usize = 0;
    while i < project.remotes.len()
        invariant
            i <= project.remotes@.len(),
            forall|j: int| 0 <= j < i ==> project.remotes@[j]@.name != name@,
        decreases project.remotes.len() - i,
    {
        if str_eq(project.remotes[i].name.as_str(), name) {
            let e = project.remotes[i].duplicate();
            assert(project.remotes@[i as int]@ == e@);
            return Ok(e);
        }
        i += 1;
    }
    let mut m = owned("environment '");
    push_str(&mut m, name);
    push_str(&mut m, "' not found");
    Err(m)
}

/// A line read from a child process without its `\n`, then without a `\r`
/// before it.
pub open spec fn spec_trim_eol(s: Seq<char>) -> Seq<char> {
    let a = if s.len() > 0 && s.last() == '\n' { s.drop_last() } else { s };
    if a.len() > 0 && a.last() == '\r' { a.drop_last() } else { a }
}

/// Drops the line ending of a line read from a child process.
pub fn trim_eol(s: &mut String)
    ensures
        final(s)@ == spec_trim_eol(old(s)@),
{
    let v = chars_of(s.as_str());
    let mut n = v.len();
    if n > 0 && v[n - 1] == '\n' {
        n -= 1;
    }
    if n > 0 && v[n - 1] == '\r' {
        n -= 1;
    }
    *s = string_of_range(&v, 0, n);
    assert(final(s)@ =~= spec_trim_eol(old(s)@));
}

/// The output of a deploy as history records it: every line read from the
/// script, without its line ending, followed by `\n`.
pub struct DeployLog {
    pub text: String,
}

impl DeployLog {
    /// The log of a deploy that has printed nothing yet.
    pub fn new() -> (r: DeployLog)
        ensures
            r.text@ == Seq::<char>::empty(),
    {
        DeployLog { text: String::new() }
    }

    /// Records a line read from the script and returns it as it is shown:
    /// without its line ending.
    pub fn record_line(&mut self, raw: String) -> (shown: String)
        ensures
            shown@ == spec_trim_eol(raw@),
            final(self).text@ == old(self).text@ + spec_trim_eol(raw@) + seq!['\n'],
    {
        let mut line = raw;
        trim_eol(&mut line);
        push_str(&mut self.text, line.as_str());
        self.text.push('\n');
        line
    }
}

/// The status recorded for a finished deploy.
pub open spec fn spec_deploy_status(cancelled: bool, exited_ok: Option<bool>) -> Seq<char> {
    if cancelled {
        "cancelled"@
    } else if exited_ok == Some(true) {
        "success"@
    } else {
        "failed"@
    }
}

/// Whether a deploy succeeded and the status that history records for it.
/// `exited_ok` is whether the script exited with success, or `None` when
/// its exit status could not be read.
pub fn deploy_outcome(cancelled: bool, exited_ok: Option<bool>) -> (r: (bool, String))
    ensures
        r.0 == (!cancelled && exited_ok == Some(true)),
        r.1@ == spec_deploy_status(cancelled, exited_ok),
{
    let ok = !cancelled && match exited_ok {
        Some(b) => b,
        None => false,
    };
    let status = if cancelled {
        owned("cancelled")
    } else if ok {
        owned("success")
    } else {
        owned("failed")
    };
    (ok, status)
}

/// Title and body of the notification about a finished deploy.
pub open spec fn spec_notification(env: Seq<char>, status: Seq<char>) -> (Seq<char>, Seq<char>) {
    if status == "success"@ {
        ("Deploy succeeded"@, env + " is live."@)
    } else if status == "failed"@ {
        ("Deploy failed"@, env + " returned a non-zero exit."@)
    } else if status == "cancelled"@ {
        ("Deploy cancelled"@, env + " was cancelled."@)
    } else {
        ("Deploy finished"@, env + ": "@ + status)
    }
}

/// The notification to show when a deploy finishes: none while the main
/// window is visible and focused, since the user is watching it.
pub fn deploy_notification(env: &str, status: &str, window_in_front: bool) -> (r: Option<(String, String)>)
    ensures
        match r {
            None => window_in_front,
            Some(p) => !window_in_front && (p.0@, p.1@) == spec_notification(env@, status@),
        },
{
    if window_in_front {
        return None;
    }
    let mut body = owned(env);
    let title;
    if str_eq(status, "success") {
        title = owned("Deploy succeeded");
        push_str(&mut body, " is live.");
    } else if str_eq(status, "failed") {
        title = owned("Deploy failed");
        push_str(&mut body, " returned a non-zero exit.");
    } else if str_eq(status, "cancelled") {
        title = owned("Deploy cancelled");
        push_str(&mut body, " was cancelled.");
    } else {
        title = owned("Deploy finished");
        push_str(&mut body, ": ");
        push_str(&mut body, status);
    }
    Some((title, body))
}

/// How a deploy ended: whether it succeeded, the status history records,
/// the script's exit code, and the notification to show, if any.
pub struct DeployReport {
    pub ok: bool,
    pub status: String,
    pub code: Option<i32>,
    pub notification: Option<(String, String)>,
}

/// The report of a finished deploy of `env`. `exited_ok` is whether the
/// script exited with success (`None` when its status could not be read);
/// no notification is shown while the main window is in front.
pub fn finish_deploy(
    env: &str,
    cancelled: bool,
    exited_ok: Option<bool>,
    code: Option<i32>,
    window_in_front: bool,
) -> (r: DeployReport)
    ensures
        r.ok == (!cancelled && exited_ok == Some(true)),
        r.status@ == spec_deploy_status(cancelled, exited_ok),
        r.code == code,
        match r.notification {
            None => window_in_front,
            Some(p) => !window_in_front
                && (p.0@, p.1@) == spec_notification(env@, spec_deploy_status(cancelled, exited_ok)),
        },
{
    let (ok, status) = deploy_outcome(cancelled, exited_ok);
    let notification = deploy_notification(env, status.as_str(), window_in_front);
    DeployReport { ok, status, code, notification }
}

/// The text after a prefix, or the whole text when it does not start with it.
pub open spec fn strip_prefix_or_keep(s: Seq<char>, p: Seq<char>) -> Seq<char> {
    if starts_with(s, p) { s.skip(p.len() as int) } else { s }
}

/// The compose service meant by a name that may also be a full container
/// name `<app>-<service>`.
pub open spec fn spec_compose_service(app_name: Seq<char>, service: Seq<char>) -> Seq<char> {
    strip_prefix_or_keep(service, app_name + "-"@)
}

/// The remote command that restarts one compose service of an app.
pub open spec fn spec_restart_command(app_name: Seq<char>, app_dir: Seq<char>, service: Seq<char>) -> Seq<char> {
    "cd "@ + spec_shell_quote(app_dir)
        + " && set -a && source .env && set +a && docker compose -f docker-compose.prod.yml restart "@
        + spec_shell_quote(spec_compose_service(app_name, service))
}

/// The compose service name for a service or container name of an app.
pub fn compose_service(app_name: &str, service: &str) -> (r: String)
    ensures
        r@ == spec_compose_service(app_name@, service@),
{
    let mut prefix = owned(app_name);
    push_str(&mut prefix, "-");
    if str_starts_with(service, prefix.as_str()) {
        let v = chars_of(service);
        let n = chars_of(prefix.as_str()).len();
        let r = string_of_range(&v, n, v.len());
        assert(r@ =~= service@.skip(prefix@.len() as int));
        r
    } else {
        owned(service)
    }
}

/// The remote command that restarts a service of an environment's app.
pub fn restart_command(app_name: &str, app_dir: &str, service: &str) -> (r: String)
    ensures
        r@ == spec_restart_command(app_name@, app_dir@, service@),
{
    let svc = compose_service(app_name, service);
    let mut cmd = owned("cd ");
    push_str(&mut cmd, shell_quote(app_dir).as_str());
    push_str(
        &mut cmd,
        " && set -a && source .env && set +a && docker compose -f docker-compose.prod.yml restart ",
    );
    push_str(&mut cmd, shell_quote(svc.as_str()).as_str());
    cmd
}

/// The remote command that follows a container's log.
pub open spec fn spec_logs_command(container: Seq<char>) -> Seq<char> {
    "docker logs -f --tail 200 --timestamps "@ + spec_shell_quote(container)
}

/// The remote command that follows the last 200 lines of a container's log.
pub fn logs_command(container: &str) -> (r: String)
    ensures
        r@ == spec_logs_command(container@),
{
    let mut cmd = owned("docker logs -f --tail 200 --timestamps ");
    push_str(&mut cmd, shell_quote(container).as_str());
    cmd
}

/// A log line as shown: lines from stderr are marked.
pub open spec fn spec_log_line(from_stderr: bool, line: Seq<char>) -> Seq<char> {
    if from_stderr { "[stderr] "@ + line } else { line }
}

/// The text shown for a line of a log stream.
pub fn log_line(from_stderr: bool, line: &str) -> (r: String)
    ensures
        r@ == spec_log_line(from_stderr, line@),
{
    if from_stderr {
        let mut r = owned("[stderr] ");
        push_str(&mut r, line);
        r
    } else {
        owned(line)
    }
}

/// The remote command that streams live container statistics, one JSON
/// object per line.
pub const METRICS_COMMAND: &'static str = "docker stats --no-trunc --format '{{json .}}'";

/// A line of `docker stats` output that is passed on: trimmed, and only
/// when it holds a JSON object.
pub open spec fn spec_metrics_line(line: Seq<char>) -> Option<Seq<char>> {
    let t = trim(line);
    if t.len() > 0 && t[0] == '{' { Some(t) } else { None }
}

/// The statistics record in a line of `docker stats` output, if any.
pub fn metrics_line(line: &str) -> (r: Option<String>)
    ensures
        match r {
            Some(t) => spec_metrics_line(line@) == Some(t@),
            None => spec_metrics_line(line@) is None,
        },
{
    let t = trim_str(line);
    let v = chars_of(t.as_str());
    if v.len() > 0 && v[0] == '{' {
        Some(t)
    } else {
        None
    }
}

/// The deploy CLI subcommands that the step runner may invoke.
pub open spec fn allowed_subcommand(s: Seq<char>) -> bool {
    s == "setup-server"@ || s == "setup-app"@ || s == "setup-github"@
}

/// Refuses every subcommand but those of the setup wizard.
pub fn check_subcommand(subcommand: &str) -> (r: Result<(), String>)
    ensures
        r is Ok <==> allowed_subcommand(subcommand@),
        r matches Err(e) ==> e@ == "subcommand '"@ + subcommand@ + "' is not allowed"@,
{
    if str_eq(subcommand, "setup-server") || str_eq(subcommand, "setup-app")
        || str_eq(subcommand, "setup-github")
    {
        Ok(())
    } else {
        let mut m = owned("subcommand '");
        push_str(&mut m, subcommand);
        push_str(&mut m, "' is not allowed");
        Err(m)
    }
}

/// The `./deploy` script a project runs: its own copy when it has one,
/// else the bundled script, or why that one could not be found.
pub fn choose_deploy_script<P>(local_exists: bool, local: P, bundled: Result<P, String>) -> (r: Result<P, String>)
    ensures
        local_exists ==> r == Ok::<P, String>(local),
        !local_exists ==> r == bundled,
{
    if local_exists {
        Ok(local)
    } else {
        bundled
    }
}

} // verus!
