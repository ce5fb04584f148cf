//! Terminal targets: the `ssh` command line that opens a shell on a host,
//! optionally inside a tmux session that survives disconnects.

use vstd::prelude::*;
use crate::text::{
    chars_of, debug_quote, owned, push_decimal, push_str, push_string, shell_quote,
    spec_shell_quote, str_debug, string_of_range, strings_view, decimal,
};
use crate::types::opt_view;

verus! {

/// Where a terminal connects: a local shell, an `~/.ssh/config` alias, or an
/// explicit `user@host` with optional port, key, jump host and directory.
#[derive(Debug, Clone)]
pub struct TerminalTarget {
    /// Spawn a local shell instead of ssh; only `shell` and `initial_cwd` apply.
    pub local: bool,
    /// Override of the local shell.
    pub shell: Option<String>,
    /// `ssh <alias>`, letting `~/.ssh/config` own every other setting.
    pub alias: Option<String>,
    /// Explicit user, required when there is no alias.
    pub user: Option<String>,
    /// Explicit host, required when there is no alias.
    pub host: Option<String>,
    pub port: Option<u16>,
    /// Path to a private key.
    pub identity: Option<String>,
    /// `user@jumphost`.
    pub proxy_jump: Option<String>,
    pub initial_cwd: Option<String>,
    /// Wrap the remote shell in a named tmux session.
    pub use_tmux: bool,
    /// Tmux session name, used when `use_tmux` is set.
    pub tmux_session: Option<String>,
}

/// The mathematical value of a [`TerminalTarget`].
pub struct TargetView {
    pub local: bool,
    pub shell: Option<Seq<char>>,
    pub alias: Option<Seq<char>>,
    pub user: Option<Seq<char>>,
    pub host: Option<Seq<char>>,
    pub port: Option<u16>,
    pub identity: Option<Seq<char>>,
    pub proxy_jump: Option<Seq<char>>,
    pub initial_cwd: Option<Seq<char>>,
    pub use_tmux: bool,
    pub tmux_session: Option<Seq<char>>,
}

impl View for TerminalTarget {
    type V = TargetView;

    open spec fn view(&self) -> TargetView {
        TargetView {
            local: self.local,
            shell: opt_view(self.shell),
            alias: opt_view(self.alias),
            user: opt_view(self.user),
            host: opt_view(self.host),
            port: self.port,
            identity: opt_view(self.identity),
            proxy_jump: opt_view(self.proxy_jump),
            initial_cwd: opt_view(self.initial_cwd),
            use_tmux: self.use_tmux,
            tmux_session: opt_view(self.tmux_session),
        }
    }
}

/// A character allowed in a tmux session name.
pub open spec fn tmux_char(c: char) -> bool {
    ('a' <= c && c <= 'z') || ('A' <= c && c <= 'Z') || ('0' <= c && c <= '9') || c == '_' || c == '-'
}

/// `s` with every character outside `[A-Za-z0-9_-]` replaced by `_`.
pub open spec fn tmux_clean(s: Seq<char>) -> Seq<char> {
    s.map_values(|c: char| if tmux_char(c) { c } else { '_' })
}

/// `s` without leading and trailing underscores.
pub open spec fn trim_underscores(s: Seq<char>) -> Seq<char>
    decreases s.len(),
{
    if s.len() > 0 && s[0] == '_' {
        trim_underscores(s.drop_first())
    } else if s.len() > 0 && s.last() == '_' {
        trim_underscores(s.drop_last())
    } else {
        s
    }
}

/// A tmux session name: cleaned, trimmed of underscores, `bishop` if empty.
pub open spec fn spec_tmux_session(s: Seq<char>) -> Seq<char> {
    let t = trim_underscores(tmux_clean(s));
    if t.len() == 0 {
        "bishop"@
    } else {
        t
    }
}

/// Makes a tmux session name safe: tmux names cannot hold `:` or `.`, so
/// everything outside `[A-Za-z0-9_-]` becomes `_`, surrounding underscores
/// go, and an empty result becomes `bishop`.
pub fn sanitize_tmux_session(s: &str) -> (r: String)
    ensures
        r@ == spec_tmux_session(s@),
{
    let v = chars_of(s);
    let mut cleaned: Vec<char> = Vec::new();
    let mut i: usize = 0;
    while i < v.len()
        invariant
            i <= v@.len(),
            v@ == s@,
            cleaned@ == tmux_clean(v@.take(i as int)),
        decreases v.len() - i,
    {
        let c = v[i];
        let ok = ('a' <= c && c <= 'z') || ('A' <= c && c <= 'Z') || ('0' <= c && c <= '9') || c == '_'
            || c == '-';
        cleaned.push(if ok { c } else { '_' });
        assert(tmux_clean(v@.take(i + 1)) =~= tmux_clean(v@.take(i as int)).push(if ok { c } else { '_' }));
        i += 1;
    }
    assert(v@.take(v@.len() as int) =~= v@);
    let mut lo: usize = 0;
    let hi0: usize = cleaned.len();
    assert(cleaned@.subrange(0, hi0 as int) =~= cleaned@);
    while lo < hi0 && cleaned[lo] == '_'
        invariant
            lo <= hi0 == cleaned@.len(),
            trim_underscores(cleaned@) == trim_underscores(cleaned@.subrange(lo as int, hi0 as int)),
        decreases hi0 - lo,
    {
        assert(cleaned@.subrange(lo as int, hi0 as int).drop_first() =~= cleaned@.subrange(lo + 1, hi0 as int));
        lo += 1;
    }
    let mut hi: usize = hi0;
    while hi > lo && cleaned[hi - 1] == '_'
        invariant
            lo <= hi <= hi0 == cleaned@.len(),
            lo < hi ==> cleaned@[lo as int] != '_',
            trim_underscores(cleaned@) == trim_underscores(cleaned@.subrange(lo as int, hi as int)),
        decreases hi - lo,
    {
        let ghost t = cleaned@.subrange(lo as int, hi as int);
        assert(t[0] == cleaned@[lo as int]);
        assert(t.drop_last() =~= cleaned@.subrange(lo as int, hi - 1));
        hi -= 1;
    }
    proof {
        let t = cleaned@.subrange(lo as int, hi as int);
        if lo < hi {
            assert(t[0] == cleaned@[lo as int]);
            assert(t.last() == cleaned@[hi - 1]);
        }
    }
    if lo == hi {
        owned("bishop")
    } else {
        string_of_range(&cleaned, lo, hi)
    }
}

/// The refusal of a value that would be read as an ssh option.
pub open spec fn option_like_error(name: Seq<char>, v: Seq<char>) -> Seq<char> {
    name + " must not start with '-' (got "@ + str_debug(v) + ")"@
}

/// Values that start with `-` would be read as ssh options.
pub open spec fn option_like(v: Seq<char>) -> bool {
    v.len() > 0 && v[0] == '-'
}

/// The shell command that ends in the user's login shell.
pub open spec fn spec_inner_command(cwd: Option<Seq<char>>) -> Seq<char> {
    match cwd {
        Some(dir) => "cd "@ + spec_shell_quote(dir) + " 2>/dev/null; exec $SHELL -l"@,
        None => "exec $SHELL -l"@,
    }
}

/// The remote command: the login shell, inside tmux when asked for.
pub open spec fn spec_remote_command(t: TargetView) -> Seq<char> {
    let inner = spec_inner_command(t.initial_cwd);
    if t.use_tmux {
        let session = spec_tmux_session(
            match t.tmux_session {
                Some(s) => s,
                None => "bishop"@,
            },
        );
        let q = spec_shell_quote(session);
        "if command -v tmux >/dev/null 2>&1; then tmux new-session -A -s "@ + q
            + " 2>/dev/null || tmux attach -t "@ + q
            + "; else echo; echo '[bishop] tmux is not installed on this host \u{2014} starting a regular shell.'; echo; "@
            + inner + "; fi"@
    } else {
        inner
    }
}

/// The options before the destination: keep-alive, then, for an explicit
/// `user@host` target, port, key and jump host. With an alias,
/// `~/.ssh/config` owns port, key, jump host and user, so none is passed.
pub open spec fn spec_option_args(t: TargetView) -> Seq<Seq<char>> {
    seq!["-tt"@, "-o"@, "ServerAliveInterval=30"@] + if t.alias is Some {
        seq![]
    } else {
        (match t.port { Some(p) => seq!["-p"@, decimal(p as nat)], None => seq![] })
            + (match t.identity { Some(id) => seq!["-i"@, id], None => seq![] })
            + (match t.proxy_jump { Some(j) => seq!["-J"@, j], None => seq![] })
    }
}

/// The ssh arguments and the tab label for a target, or why it is refused:
/// no value passed to ssh may start with `-` (it would be read as an
/// option), and without an alias both user and host are needed.
pub open spec fn spec_ssh_args(t: TargetView) -> Result<(Seq<Seq<char>>, Seq<char>), Seq<char>> {
    let dest: Result<Seq<char>, Seq<char>> = match t.alias {
        Some(a) => if option_like(a) {
            Err(option_like_error("alias"@, a))
        } else {
            Ok(a)
        },
        None => if t.identity is Some && option_like(t.identity.unwrap()) {
            Err(option_like_error("identity"@, t.identity.unwrap()))
        } else if t.proxy_jump is Some && option_like(t.proxy_jump.unwrap()) {
            Err(option_like_error("proxy_jump"@, t.proxy_jump.unwrap()))
        } else {
            match t.user {
                None => Err("user or alias required"@),
                Some(u) => match t.host {
                    None => Err("host or alias required"@),
                    Some(h) => if option_like(u) {
                        Err(option_like_error("user"@, u))
                    } else if option_like(h) {
                        Err(option_like_error("host"@, h))
                    } else {
                        Ok(u + "@"@ + h)
                    },
                },
            }
        },
    };
    match dest {
        Err(e) => Err(e),
        Ok(d) => Ok((spec_option_args(t) + seq!["--"@, d, spec_remote_command(t)], d)),
    }
}

fn starts_with_dash(s: &str) -> (b: bool)
    ensures
        b == option_like(s@),
{
    let v = chars_of(s);
    v.len() > 0 && v[0] == '-'
}

fn option_error(name: &str, v: &str) -> (r: String)
    ensures
        r@ == option_like_error(name@, v@),
{
    let mut msg = owned(name);
    push_str(&mut msg, " must not start with '-' (got ");
    push_str(&mut msg, debug_quote(v).as_str());
    push_str(&mut msg, ")");
    msg
}

impl TerminalTarget {
    /// The ssh command line for this target and a label for its tab.
    pub fn to_ssh_args(&self) -> (r: Result<(Vec<String>, String), String>)
        ensures
            match r {
                Ok((args, label)) => spec_ssh_args(self@) == Ok::<(Seq<Seq<char>>, Seq<char>), Seq<char>>((strings_view(args@), label@)),
                Err(e) => spec_ssh_args(self@) == Err::<(Seq<Seq<char>>, Seq<char>), Seq<char>>(e@),
            },
    {
        let mut args: Vec<String> = Vec::new();
        push_string(&mut args, owned("-tt"));
        push_string(&mut args, owned("-o"));
        push_string(&mut args, owned("ServerAliveInterval=30"));
        let ghost base = seq!["-tt"@, "-o"@, "ServerAliveInterval=30"@];
        assert(strings_view(args@) =~= base);
        let destination = match &self.alias {
            Some(alias) => {
                if starts_with_dash(alias.as_str()) {
                    return Err(option_error("alias", alias.as_str()));
                }
                assert(strings_view(args@) =~= spec_option_args(self@));
                alias.clone()
            },
            None => {
                match self.port {
                    Some(port) => {
                        push_string(&mut args, owned("-p"));
                        let mut p = String::new();
                        push_decimal(&mut p, port as u64);
                        push_string(&mut args, p);
                    },
                    None => {},
                }
                let ghost after_port = base + (match self.port { Some(p) => seq!["-p"@, decimal(p as nat)], None => seq![] });
                assert(strings_view(args@) =~= after_port);
                match &self.identity {
                    Some(id) => {
                        if starts_with_dash(id.as_str()) {
                            return Err(option_error("identity", id.as_str()));
                        }
                        push_string(&mut args, owned("-i"));
                        push_string(&mut args, id.clone());
                    },
                    None => {},
                }
                let ghost after_id = after_port + (match self@.identity { Some(id) => seq!["-i"@, id], None => seq![] });
                assert(strings_view(args@) =~= after_id);
                match &self.proxy_jump {
                    Some(j) => {
                        if starts_with_dash(j.as_str()) {
                            return Err(option_error("proxy_jump", j.as_str()));
                        }
                        push_string(&mut args, owned("-J"));
                        push_string(&mut args, j.clone());
                    },
                    None => {},
                }
                assert(strings_view(args@) =~= spec_option_args(self@));
                let user = match &self.user {
                    Some(u) => u,
                    None => {
                        return Err(owned("user or alias required"));
                    },
                };
                let host = match &self.host {
                    Some(h) => h,
                    None => {
                        return Err(owned("host or alias required"));
                    },
                };
                if starts_with_dash(user.as_str()) {
                    return Err(option_error("user", user.as_str()));
                }
                if starts_with_dash(host.as_str()) {
                    return Err(option_error("host", host.as_str()));
                }
                let mut target = user.clone();
                push_str(&mut target, "@");
                push_str(&mut target, host.as_str());
                target
            },
        };
        let ghost d = destination@;
        assert(spec_ssh_args(self@) == Ok::<(Seq<Seq<char>>, Seq<char>), Seq<char>>((spec_option_args(self@) + seq!["--"@, d, spec_remote_command(self@)], d)));
        let label = destination.clone();
        let ghost opts = strings_view(args@);
        push_string(&mut args, owned("--"));
        push_string(&mut args, destination);
        let remote = remote_command(self);
        push_string(&mut args, remote);
        assert(strings_view(args@) =~= opts + seq!["--"@, d, spec_remote_command(self@)]);
        Ok((args, label))
    }
}

/// The ssh arguments that run `cmd` on a target without a terminal: those
/// of [`spec_ssh_args`] without the leading `-tt`, with `cmd` in place of the
/// shell command.
pub open spec fn spec_exec_args(t: TargetView, cmd: Seq<char>) -> Result<Seq<Seq<char>>, Seq<char>> {
    match spec_ssh_args(t) {
        Ok(p) => Ok(p.0.drop_first().drop_last().push(cmd)),
        Err(e) => Err(e),
    }
}

impl TerminalTarget {
    /// The ssh command line that runs `cmd` on this target over a plain
    /// (non-tty) session, for piping data to it.
    pub fn to_exec_args(&self, cmd: &str) -> (r: Result<Vec<String>, String>)
        ensures
            match r {
                Ok(args) => spec_exec_args(self@, cmd@) == Ok::<Seq<Seq<char>>, Seq<char>>(strings_view(args@)),
                Err(e) => spec_exec_args(self@, cmd@) == Err::<Seq<Seq<char>>, Seq<char>>(e@),
            },
    {
        let (args, _label) = self.to_ssh_args()?;
        let ghost full = strings_view(args@);
        let mut out: Vec<String> = Vec::new();
        let mut i: usize = 1;
        while i + 1 < args.len()
            invariant
                full == strings_view(args@),
                full.len() >= 4,
                1 <= i <= args@.len() - 1,
                strings_view(out@) == full.subrange(1, i as int),
            decreases args.len() - i,
        {
            let ghost before = out@;
            push_string(&mut out, args[i].clone());
            assert(strings_view(out@) =~= strings_view(before).push(full[i as int]));
            assert(full.subrange(1, i + 1) =~= full.subrange(1, i as int).push(full[i as int]));
            i += 1;
        }
        push_string(&mut out, owned(cmd));
        assert(full.drop_first().drop_last() =~= full.subrange(1, full.len() - 1));
        Ok(out)
    }
}

/// The remote command of a target (see [`spec_remote_command`]).
fn remote_command(t: &TerminalTarget) -> (r: String)
    ensures
        r@ == spec_remote_command(t@),
{
    let inner = match &t.initial_cwd {
        Some(dir) => {
            let mut c = owned("cd ");
            push_str(&mut c, shell_quote(dir.as_str()).as_str());
            push_str(&mut c, " 2>/dev/null; exec $SHELL -l");
            c
        },
        None => owned("exec $SHELL -l"),
    };
    if t.use_tmux {
        let name = match &t.tmux_session {
            Some(s) => s.as_str(),
            None => "bishop",
        };
        let session = sanitize_tmux_session(name);
        let q = shell_quote(session.as_str());
        let mut c = owned("if command -v tmux >/dev/null 2>&1; then tmux new-session -A -s ");
        push_str(&mut c, q.as_str());
        push_str(&mut c, " 2>/dev/null || tmux attach -t ");
        push_str(&mut c, q.as_str());
        push_str(&mut c, "; else echo; echo '[bishop] tmux is not installed on this host \u{2014} starting a regular shell.'; echo; ");
        push_str(&mut c, inner.as_str());
        push_str(&mut c, "; fi");
        c
    } else {
        inner
    }
}


impl TerminalTarget {
    /// The program a local terminal runs: the target's own shell, else the
    /// user's `$SHELL` (`env_shell`), else `/bin/bash`.
    pub fn local_shell(&self, env_shell: Option<String>) -> (r: String)
        ensures
            r@ == match self@.shell {
                Some(s) => s,
                None => match opt_view(env_shell) {
                    Some(e) => e,
                    None => "/bin/bash"@,
                },
            },
    {
        match &self.shell {
            Some(s) => s.clone(),
            None => match env_shell {
                Some(e) => e,
                None => owned("/bin/bash"),
            },
        }
    }
}

/// A terminal dimension as the pty gets it: at least one cell.
pub fn pty_dim(n: u16) -> (r: u16)
    ensures
        r == if n == 0 { 1 } else { n },
{
    if n == 0 { 1 } else { n }
}

/// The exit code reported when a terminal's process ends: its code when it
/// fits an `i32`, else `-1` (also when the code could not be read).
pub fn exit_code_payload(code: Option<u32>) -> (r: i32)
    ensures
        r == match code {
            Some(c) => if c <= i32::MAX { c as int } else { -1 },
            None => -1,
        },
{
    match code {
        Some(c) => if c <= 2147483647u32 { c as i32 } else { -1 },
        None => -1,
    }
}


proof fn lemma_trim_underscores(s: Seq<char>)
    ensures
        forall|i: int| 0 <= i < trim_underscores(s).len()
            ==> exists|j: int| 0 <= j < s.len() && s[j] == #[trigger] trim_underscores(s)[i],
        trim_underscores(s).len() > 0 ==> trim_underscores(s)[0] != '_' && trim_underscores(s).last() != '_',
    decreases s.len(),
{
    let t = trim_underscores(s);
    if s.len() > 0 && s[0] == '_' {
        lemma_trim_underscores(s.drop_first());
        assert forall|i: int| 0 <= i < t.len() implies exists|j: int| 0 <= j < s.len() && s[j] == #[trigger] t[i] by {
            let j = choose|j: int| 0 <= j < s.drop_first().len() && s.drop_first()[j] == t[i];
            assert(s[j + 1] == t[i]);
        }
    } else if s.len() > 0 && s.last() == '_' {
        lemma_trim_underscores(s.drop_last());
        assert forall|i: int| 0 <= i < t.len() implies exists|j: int| 0 <= j < s.len() && s[j] == #[trigger] t[i] by {
            let j = choose|j: int| 0 <= j < s.drop_last().len() && s.drop_last()[j] == t[i];
            assert(s[j] == t[i]);
        }
    } else {
        assert forall|i: int| 0 <= i < t.len() implies exists|j: int| 0 <= j < s.len() && s[j] == #[trigger] t[i] by {
            assert(s[i] == t[i]);
        }
    }
}

/// A tmux session name is never empty, holds only `[A-Za-z0-9_-]`, and
/// neither starts nor ends with `_`.
pub proof fn law_tmux_session(s: Seq<char>)
    ensures
        spec_tmux_session(s).len() > 0,
        forall|i: int| 0 <= i < spec_tmux_session(s).len() ==> tmux_char(#[trigger] spec_tmux_session(s)[i]),
        spec_tmux_session(s)[0] != '_',
        spec_tmux_session(s).last() != '_',
{
    reveal_strlit("bishop");
    let c = tmux_clean(s);
    lemma_trim_underscores(c);
    let t = trim_underscores(c);
    assert forall|i: int| 0 <= i < spec_tmux_session(s).len() implies tmux_char(#[trigger] spec_tmux_session(s)[i]) by {
        if t.len() > 0 {
            let j = choose|j: int| 0 <= j < c.len() && c[j] == t[i];
        }
    }
}

/// What a successful target gives ssh: the fixed and optional options,
/// `--`, the destination (which is also the tab label), and the remote
/// command. No value the caller supplied (key, jump host, alias, user) starts
/// with `-`, and `--` ends the options, so none can be read as an ssh option.
/// With an alias only the keep-alive options are passed.
pub proof fn law_ssh_args_safe(t: TargetView)
    requires
        spec_ssh_args(t) is Ok,
    ensures
        ({
            let args = spec_ssh_args(t)->Ok_0.0;
            let label = spec_ssh_args(t)->Ok_0.1;
            let n = args.len();
            &&& n >= 6
            &&& args.take(n - 3) == spec_option_args(t)
            &&& args[n - 3] == "--"@
            &&& args[n - 2] == label
            &&& !option_like(label)
            &&& args[n - 1] == spec_remote_command(t)
            &&& (t.alias is None ==> (t.identity matches Some(id) ==> !option_like(id)))
            &&& (t.alias is None ==> (t.proxy_jump matches Some(j) ==> !option_like(j)))
            &&& (t.alias is Some ==> args.take(n - 3) == seq!["-tt"@, "-o"@, "ServerAliveInterval=30"@])
        }),
{
    reveal_strlit("@");
    let opts = spec_option_args(t);
    let r = spec_ssh_args(t)->Ok_0;
    let args = r.0;
    let d = r.1;
    assert(args == opts + seq!["--"@, d, spec_remote_command(t)]);
    assert(args.take(args.len() - 3) =~= opts);
    if t.alias is Some {
        assert(opts =~= seq!["-tt"@, "-o"@, "ServerAliveInterval=30"@]);
    }
    if t.alias is None {
        let u = t.user.unwrap();
        let h = t.host.unwrap();
        assert(d == u + "@"@ + h);
        if u.len() > 0 {
            assert(d[0] == u[0]);
        } else {
            assert(d[0] == '@');
        }
    }
}

} // verus!
