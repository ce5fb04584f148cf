//! Error catalog: turns raw bash/docker/ssh output into a structured,
//! actionable [`BishopError`]. The first catalog entry whose pattern matches
//! the text wins, so narrower patterns stand before broader ones.

use vstd::prelude::*;
use crate::text::{chars_of, join, lines, next_line, push_range, starts_with, trim, trim_range};

verus! {

/// Structured error for the frontend: `message`, `hint` and `action` say
/// what to do; `raw` keeps the tail of the text it was found in.
#[derive(Debug, Clone)]
pub struct BishopError {
    pub code: String,
    pub message: String,
    pub hint: Option<String>,
    pub docs_url: Option<String>,
    pub action: Option<BishopAction>,
    pub raw: Option<String>,
}

/// Optional "try this" button shown next to an error.
#[derive(Debug, Clone)]
pub struct BishopAction {
    /// Button label, e.g. "Open scaffold".
    pub label: String,
    /// What the button does: "open_url", "retry", "open_scaffold", "copy" or "run_step".
    pub kind: String,
    /// Free-form payload interpreted per kind.
    pub payload: Option<String>,
}

/// One known error shape.
pub struct CatalogEntry {
    pub code: &'static str,
    pub pattern: &'static str,
    pub message: &'static str,
    pub hint: Option<&'static str>,
    pub docs_url: Option<&'static str>,
    pub action: Option<StaticAction>,
}

/// The action of a catalog entry.
pub struct StaticAction {
    pub label: &'static str,
    pub kind: &'static str,
    pub payload: Option<&'static str>,
}

/// The mathematical value of a [`BishopAction`].
pub struct ActionView {
    pub label: Seq<char>,
    pub kind: Seq<char>,
    pub payload: Option<Seq<char>>,
}

/// The mathematical value of a [`BishopError`].
pub struct ErrorView {
    pub code: Seq<char>,
    pub message: Seq<char>,
    pub hint: Option<Seq<char>>,
    pub docs_url: Option<Seq<char>>,
    pub action: Option<ActionView>,
    pub raw: Option<Seq<char>>,
}

pub open spec fn str_opt_view(o: Option<&'static str>) -> Option<Seq<char>> {
    match o {
        Some(s) => Some(s@),
        None => None,
    }
}

pub open spec fn string_opt_view(o: Option<String>) -> Option<Seq<char>> {
    match o {
        Some(s) => Some(s@),
        None => None,
    }
}

impl View for BishopAction {
    type V = ActionView;

    open spec fn view(&self) -> ActionView {
        ActionView { label: self.label@, kind: self.kind@, payload: string_opt_view(self.payload) }
    }
}

impl View for BishopError {
    type V = ErrorView;

    open spec fn view(&self) -> ErrorView {
        ErrorView {
            code: self.code@,
            message: self.message@,
            hint: string_opt_view(self.hint),
            docs_url: string_opt_view(self.docs_url),
            action: match self.action {
                Some(a) => Some(a@),
                None => None,
            },
            raw: string_opt_view(self.raw),
        }
    }
}

/// What `regex::Regex::new(pattern)` followed by `is_match(haystack)` gives:
/// `None` when the pattern does not compile, else whether it matches
/// somewhere in the haystack.
pub uninterp spec fn regex_search(pattern: Seq<char>, haystack: Seq<char>) -> Option<bool>;

/// Compiles `pattern` with `regex::Regex::new` and tests it with
/// `Regex::is_match`; the outcome is named, not stated.
#[verifier::external_body]
fn regex_is_match(pattern: &str, haystack: &str) -> (r: Option<bool>)
    ensures
        r == regex_search(pattern@, haystack@),
{
    match regex::Regex::new(pattern) {
        Ok(re) => Some(re.is_match(haystack)),
        Err(_) => None,
    }
}

/// The lines of `ls` that hold something besides whitespace.
pub open spec fn nonblank_lines(ls: Seq<Seq<char>>) -> Seq<Seq<char>>
    decreases ls.len(),
{
    if ls.len() == 0 {
        seq![]
    } else {
        let k = nonblank_lines(ls.drop_last());
        if trim(ls.last()).len() > 0 {
            k.push(ls.last())
        } else {
            k
        }
    }
}

/// The last `n` non-blank lines of a text, joined with newlines.
pub open spec fn spec_tail_lines(text: Seq<char>, n: nat) -> Seq<char> {
    let ne = nonblank_lines(lines(text));
    join(if ne.len() > n { ne.skip(ne.len() - n) } else { ne }, seq!['\n'])
}

/// Keeps just the last `n` non-blank lines, where the actual error printed.
pub fn tail_lines(text: &str, n: usize) -> (r: String)
    ensures
        r@ == spec_tail_lines(text@, n as nat),
{
    let v = chars_of(text);
    let mut kept: Vec<(usize, usize)> = Vec::new();
    let mut start: usize = 0;
    let ghost mut done: Seq<Seq<char>> = seq![];
    assert(v@.skip(0) =~= v@);
    while start < v.len()
        invariant
            start <= v@.len(),
            v@ == text@,
            lines(v@) == done + lines(v@.skip(start as int)),
            kept@.len() == nonblank_lines(done).len(),
            forall|j: int| 0 <= j < kept@.len() ==> {
                &&& (#[trigger] kept@[j]).0 <= kept@[j].1 <= v@.len()
                &&& v@.subrange(kept@[j].0 as int, kept@[j].1 as int) == nonblank_lines(done)[j]
            },
        decreases v.len() - start,
    {
        let (e, nx) = next_line(&v, start);
        let ghost l = v@.subrange(start as int, e as int);
        let (a, b) = trim_range(&v, start, e);
        proof {
            assert(done.push(l).drop_last() =~= done);
        }
        if a < b {
            kept.push((start, e));
        }
        proof {
            assert(done.push(l) + lines(v@.skip(nx as int)) =~= done + (seq![l] + lines(v@.skip(nx as int))));
            done = done.push(l);
        }
        start = nx;
    }
    assert(v@.skip(v@.len() as int) =~= Seq::<char>::empty());
    assert(done + Seq::<Seq<char>>::empty() =~= done);
    let ghost ne = nonblank_lines(lines(text@));
    let first = if kept.len() > n { kept.len() - n } else { 0 };
    let ghost sel = if ne.len() > n { ne.skip(ne.len() - n) } else { ne };
    assert(sel =~= ne.skip(first as int));
    let mut out = String::new();
    let mut i = first;
    while i < kept.len()
        invariant
            first <= i <= kept@.len(),
            kept@.len() == ne.len(),
            forall|j: int| 0 <= j < kept@.len() ==> {
                &&& (#[trigger] kept@[j]).0 <= kept@[j].1 <= v@.len()
                &&& v@.subrange(kept@[j].0 as int, kept@[j].1 as int) == ne[j]
            },
            out@ == join(ne.subrange(first as int, i as int), seq!['\n']),
        decreases kept.len() - i,
    {
        let (a, b) = kept[i];
        proof {
            crate::env_vars::lemma_join_push(ne.subrange(first as int, i as int), ne[i as int], seq!['\n']);
            assert(ne.subrange(first as int, i as int).push(ne[i as int]) =~= ne.subrange(first as int, i + 1));
        }
        if i > first {
            out.push('\n');
        }
        push_range(&mut out, &v, a, b);
        i += 1;
    }
    assert(ne.subrange(first as int, kept@.len() as int) =~= ne.skip(first as int));
    out
}


/// The catalog, narrower patterns first; every entry has a hint.
pub open spec fn spec_catalog() -> Seq<CatalogEntry> {
    seq![
        CatalogEntry {
            code: "SSH_PERMISSION_DENIED",
            pattern: r"(?i)Permission denied \(publickey",
            message: "The server refused your SSH key.",
            hint: Some("Make sure your key is added to the server's authorized_keys, and that ssh-agent has it loaded (run `ssh-add -l`). If you're using an IdentityFile from ~/.ssh/config, confirm the path is correct."),
            docs_url: Some("https://docs.github.com/en/authentication/troubleshooting-ssh"),
            action: None,
        },
        CatalogEntry {
            code: "SSH_HOST_UNREACHABLE",
            pattern: r"(?i)(No route to host|Network is unreachable|Could not resolve hostname|Connection timed out)",
            message: "Can't reach the server over SSH.",
            hint: Some("Check your internet connection and the hostname/IP in the environment config. If the server is behind a firewall, make sure port 22 (or your custom SSH port) is open."),
            docs_url: None,
            action: None,
        },
        CatalogEntry {
            code: "DOCKER_NOT_INSTALLED",
            pattern: r"(?i)(docker: command not found|bash: docker: command not found|command not found: docker)",
            message: "Docker isn't installed on the server.",
            hint: Some("Run `setup-server` first — it installs Docker, Traefik, and the shared Postgres/Redis stack."),
            docs_url: None,
            action: Some(StaticAction { label: "Run setup-server", kind: "run_step", payload: Some("setup-server") }),
        },
        CatalogEntry {
            code: "PORT_ALREADY_IN_USE",
            pattern: r"(?i)(Bind for 0\.0\.0\.0:\d+ failed: port is already allocated|address already in use|bind: address already in use)",
            message: "The port this app wants is already taken on the server.",
            hint: Some("Another container (or the host OS) is holding that port. SSH in and run `sudo lsof -iTCP -sTCP:LISTEN` to find the culprit. In most Bishop setups only Traefik binds to 80/443 — you shouldn't need to publish app ports."),
            docs_url: None,
            action: None,
        },
        CatalogEntry {
            code: "COMPOSE_FILE_MISSING",
            pattern: r"(?i)(docker-compose\.prod\.yml.*(?:no such file|not found|does not exist)|scp:.*docker-compose\.prod\.yml: No such file)",
            message: "docker-compose.prod.yml is missing from this project.",
            hint: Some("Bishop can scaffold one for you with sensible defaults — review it before deploying."),
            docs_url: None,
            action: Some(StaticAction { label: "Open scaffold", kind: "open_scaffold", payload: Some("compose") }),
        },
        CatalogEntry {
            code: "ENV_FILE_MISSING",
            pattern: r"(?i)(\.env.*(?:no such file|not found)|env file .* not found|failed to open env file)",
            message: "The .env file for this environment isn't on the server.",
            hint: Some("Run `setup-app` to bootstrap the app directory and upload environment variables. Or open the Environment Variables panel to set them from Bishop."),
            docs_url: None,
            action: Some(StaticAction { label: "Run setup-app", kind: "run_step", payload: Some("setup-app") }),
        },
        CatalogEntry {
            code: "GHCR_LOGIN_FAILED",
            pattern: r"(?i)(denied: requested access to the resource is denied|unauthorized: authentication required|docker login.* failed)",
            message: "GitHub Container Registry rejected the login.",
            hint: Some("Your GHCR_TOKEN is missing, expired, or doesn't have `read:packages` scope. Generate a new classic token at github.com/settings/tokens with read:packages and write:packages, then paste it into the environment's secrets."),
            docs_url: Some("https://docs.github.com/en/packages/working-with-a-github-packages-registry/working-with-the-container-registry"),
            action: None,
        },
        CatalogEntry {
            code: "DISK_FULL",
            pattern: r"(?i)(no space left on device|write error: No space left)",
            message: "The server's disk is full.",
            hint: Some("Run `docker system prune -af --volumes` on the server to clear unused images + volumes. If it's still full, the database volume has probably grown — check `df -h` and `du -sh /var/lib/docker/volumes/*`."),
            docs_url: None,
            action: None,
        },
        CatalogEntry {
            code: "TRAEFIK_CERT_STUCK",
            pattern: r"(?i)(acme: error.*authorization|unable to generate a certificate|too many certificates already issued)",
            message: "Traefik couldn't issue a TLS certificate from Let's Encrypt.",
            hint: Some("Almost always a DNS problem: make sure the domain's A record points at the server's public IP and has propagated. Let's Encrypt also rate-limits to 50 certs/domain/week — if you're hitting that, wait or use staging ACME for testing."),
            docs_url: Some("https://letsencrypt.org/docs/rate-limits/"),
            action: None,
        },
        CatalogEntry {
            code: "BASH_UNBOUND_VARIABLE",
            pattern: r"bash: line \d+: \$\w+: unbound variable",
            message: "The deploy script hit an unset variable.",
            hint: Some("Usually means a required env var isn't set on the server, or a template left a placeholder. Check the line number in the output above — it'll tell you which variable. If it's `$6` or similar, that's a missing positional arg, usually from the setup-server invocation."),
            docs_url: None,
            action: None,
        },
    ]
}

/// The catalog entries, in order.
pub fn catalog() -> (v: Vec<CatalogEntry>)
    ensures
        v@ == spec_catalog(),
{
    let v = vec![
        CatalogEntry {
            code: "SSH_PERMISSION_DENIED",
            pattern: r"(?i)Permission denied \(publickey",
            message: "The server refused your SSH key.",
            hint: Some("Make sure your key is added to the server's authorized_keys, and that ssh-agent has it loaded (run `ssh-add -l`). If you're using an IdentityFile from ~/.ssh/config, confirm the path is correct."),
            docs_url: Some("https://docs.github.com/en/authentication/troubleshooting-ssh"),
            action: None,
        },
        CatalogEntry {
            code: "SSH_HOST_UNREACHABLE",
            pattern: r"(?i)(No route to host|Network is unreachable|Could not resolve hostname|Connection timed out)",
            message: "Can't reach the server over SSH.",
            hint: Some("Check your internet connection and the hostname/IP in the environment config. If the server is behind a firewall, make sure port 22 (or your custom SSH port) is open."),
            docs_url: None,
            action: None,
        },
        CatalogEntry {
            code: "DOCKER_NOT_INSTALLED",
            pattern: r"(?i)(docker: command not found|bash: docker: command not found|command not found: docker)",
            message: "Docker isn't installed on the server.",
            hint: Some("Run `setup-server` first — it installs Docker, Traefik, and the shared Postgres/Redis stack."),
            docs_url: None,
            action: Some(StaticAction { label: "Run setup-server", kind: "run_step", payload: Some("setup-server") }),
        },
        CatalogEntry {
            code: "PORT_ALREADY_IN_USE",
            pattern: r"(?i)(Bind for 0\.0\.0\.0:\d+ failed: port is already allocated|address already in use|bind: address already in use)",
            message: "The port this app wants is already taken on the server.",
            hint: Some("Another container (or the host OS) is holding that port. SSH in and run `sudo lsof -iTCP -sTCP:LISTEN` to find the culprit. In most Bishop setups only Traefik binds to 80/443 — you shouldn't need to publish app ports."),
            docs_url: None,
            action: None,
        },
        CatalogEntry {
            code: "COMPOSE_FILE_MISSING",
            pattern: r"(?i)(docker-compose\.prod\.yml.*(?:no such file|not found|does not exist)|scp:.*docker-compose\.prod\.yml: No such file)",
            message: "docker-compose.prod.yml is missing from this project.",
            hint: Some("Bishop can scaffold one for you with sensible defaults — review it before deploying."),
            docs_url: None,
            action: Some(StaticAction { label: "Open scaffold", kind: "open_scaffold", payload: Some("compose") }),
        },
        CatalogEntry {
            code: "ENV_FILE_MISSING",
            pattern: r"(?i)(\.env.*(?:no such file|not found)|env file .* not found|failed to open env file)",
            message: "The .env file for this environment isn't on the server.",
            hint: Some("Run `setup-app` to bootstrap the app directory and upload environment variables. Or open the Environment Variables panel to set them from Bishop."),
            docs_url: None,
            action: Some(StaticAction { label: "Run setup-app", kind: "run_step", payload: Some("setup-app") }),
        },
        CatalogEntry {
            code: "GHCR_LOGIN_FAILED",
            pattern: r"(?i)(denied: requested access to the resource is denied|unauthorized: authentication required|docker login.* failed)",
            message: "GitHub Container Registry rejected the login.",
            hint: Some("Your GHCR_TOKEN is missing, expired, or doesn't have `read:packages` scope. Generate a new classic token at github.com/settings/tokens with read:packages and write:packages, then paste it into the environment's secrets."),
            docs_url: Some("https://docs.github.com/en/packages/working-with-a-github-packages-registry/working-with-the-container-registry"),
            action: None,
        },
        CatalogEntry {
            code: "DISK_FULL",
            pattern: r"(?i)(no space left on device|write error: No space left)",
            message: "The server's disk is full.",
            hint: Some("Run `docker system prune -af --volumes` on the server to clear unused images + volumes. If it's still full, the database volume has probably grown — check `df -h` and `du -sh /var/lib/docker/volumes/*`."),
            docs_url: None,
            action: None,
        },
        CatalogEntry {
            code: "TRAEFIK_CERT_STUCK",
            pattern: r"(?i)(acme: error.*authorization|unable to generate a certificate|too many certificates already issued)",
            message: "Traefik couldn't issue a TLS certificate from Let's Encrypt.",
            hint: Some("Almost always a DNS problem: make sure the domain's A record points at the server's public IP and has propagated. Let's Encrypt also rate-limits to 50 certs/domain/week — if you're hitting that, wait or use staging ACME for testing."),
            docs_url: Some("https://letsencrypt.org/docs/rate-limits/"),
            action: None,
        },
        CatalogEntry {
            code: "BASH_UNBOUND_VARIABLE",
            pattern: r"bash: line \d+: \$\w+: unbound variable",
            message: "The deploy script hit an unset variable.",
            hint: Some("Usually means a required env var isn't set on the server, or a template left a placeholder. Check the line number in the output above — it'll tell you which variable. If it's `$6` or similar, that's a missing positional arg, usually from the setup-server invocation."),
            docs_url: None,
            action: None,
        },
    ];
    assert(v@ =~= spec_catalog());
    v
}

/// The error reported for a catalog entry matched in `text`.
pub open spec fn spec_to_bishop(e: CatalogEntry, text: Seq<char>) -> ErrorView {
    ErrorView {
        code: e.code@,
        message: e.message@,
        hint: str_opt_view(e.hint),
        docs_url: str_opt_view(e.docs_url),
        action: match e.action {
            Some(a) => Some(ActionView { label: a.label@, kind: a.kind@, payload: str_opt_view(a.payload) }),
            None => None,
        },
        raw: Some(spec_tail_lines(text, 20)),
    }
}

fn opt_string(o: Option<&'static str>) -> (r: Option<String>)
    ensures
        string_opt_view(r) == str_opt_view(o),
{
    match o {
        Some(s) => Some(String::from_str(s)),
        None => None,
    }
}

impl CatalogEntry {
    /// The structured error for this entry, with the tail of `text` as `raw`.
    pub fn to_bishop(&self, text: &str) -> (r: BishopError)
        ensures
            r@ == spec_to_bishop(*self, text@),
    {
        BishopError {
            code: String::from_str(self.code),
            message: String::from_str(self.message),
            hint: opt_string(self.hint),
            docs_url: opt_string(self.docs_url),
            action: match &self.action {
                Some(a) => Some(BishopAction {
                    label: String::from_str(a.label),
                    kind: String::from_str(a.kind),
                    payload: opt_string(a.payload),
                }),
                None => None,
            },
            raw: Some(tail_lines(text, 20)),
        }
    }
}

/// The first entry whose pattern compiles and matches `text`.
pub open spec fn first_match(cat: Seq<CatalogEntry>, text: Seq<char>) -> Option<CatalogEntry>
    decreases cat.len(),
{
    if cat.len() == 0 {
        None
    } else if regex_search(cat[0].pattern@, text) == Some(true) {
        Some(cat[0])
    } else {
        first_match(cat.drop_first(), text)
    }
}

/// Scans text for a known error pattern; the first catalog entry that
/// matches wins.
pub fn match_error(text: &str) -> (r: Option<BishopError>)
    ensures
        match r {
            Some(e) => first_match(spec_catalog(), text@) matches Some(c) && e@ == spec_to_bishop(c, text@),
            None => first_match(spec_catalog(), text@) is None,
        },
{
    let cat = catalog();
    let mut i: usize = 0;
    assert(cat@.skip(0) =~= cat@);
    while i < cat.len()
        invariant
            i <= cat@.len(),
            cat@ == spec_catalog(),
            first_match(spec_catalog(), text@) == first_match(cat@.skip(i as int), text@),
        decreases cat.len() - i,
    {
        let e = &cat[i];
        assert(cat@.skip(i as int)[0] == cat@[i as int]);
        assert(cat@.skip(i as int).drop_first() =~= cat@.skip(i + 1));
        if regex_is_match(e.pattern, text) == Some(true) {
            return Some(e.to_bishop(text));
        }
        i += 1;
    }
    assert(cat@.skip(i as int) =~= Seq::<CatalogEntry>::empty());
    None
}

/// `w` stands in pattern `p` as one whole alternative at position `i`:
/// right after a `(` or `|`, right before a `|` or `)`.
pub open spec fn alternative_at(p: Seq<char>, w: Seq<char>, i: int) -> bool {
    &&& 1 <= i && i + w.len() < p.len()
    &&& p.subrange(i, i + w.len()) == w
    &&& (p[i - 1] == '(' || p[i - 1] == '|')
    &&& (p[i + w.len()] == '|' || p[i + w.len()] == ')')
}

/// A case-insensitive pattern `(?i)(...)` that has the literal text `w` as
/// one of its alternatives, so that it matches every text holding `w` in
/// any case.
pub open spec fn ci_alternative(p: Seq<char>, w: Seq<char>) -> bool {
    &&& starts_with(p, "(?i)("@)
    &&& p.last() == ')'
    &&& exists|i: int| alternative_at(p, w, i)
}

/// The phrases the `SSH_HOST_UNREACHABLE` entry stands for.
proof fn lemma_catalog_1()
    ensures
        spec_catalog()[1].code@ == "SSH_HOST_UNREACHABLE"@,
        ci_alternative(spec_catalog()[1].pattern@, "No route to host"@),
        ci_alternative(spec_catalog()[1].pattern@, "Network is unreachable"@),
        ci_alternative(spec_catalog()[1].pattern@, "Could not resolve hostname"@),
        ci_alternative(spec_catalog()[1].pattern@, "Connection timed out"@),
{
    reveal_strlit(r"(?i)(No route to host|Network is unreachable|Could not resolve hostname|Connection timed out)");
    reveal_strlit("(?i)(");
    let p = spec_catalog()[1].pattern@;
    assert(p.take(5) =~= "(?i)("@);
    reveal_strlit("No route to host");
    assert(p.subrange(5, 21) =~= "No route to host"@);
    assert(alternative_at(p, "No route to host"@, 5));
    reveal_strlit("Network is unreachable");
    assert(p.subrange(22, 44) =~= "Network is unreachable"@);
    assert(alternative_at(p, "Network is unreachable"@, 22));
    reveal_strlit("Could not resolve hostname");
    assert(p.subrange(45, 71) =~= "Could not resolve hostname"@);
    assert(alternative_at(p, "Could not resolve hostname"@, 45));
    reveal_strlit("Connection timed out");
    assert(p.subrange(72, 92) =~= "Connection timed out"@);
    assert(alternative_at(p, "Connection timed out"@, 72));
}

/// The phrases the `DOCKER_NOT_INSTALLED` entry stands for.
proof fn lemma_catalog_2()
    ensures
        spec_catalog()[2].code@ == "DOCKER_NOT_INSTALLED"@,
        ci_alternative(spec_catalog()[2].pattern@, "docker: command not found"@),
        ci_alternative(spec_catalog()[2].pattern@, "bash: docker: command not found"@),
        ci_alternative(spec_catalog()[2].pattern@, "command not found: docker"@),
{
    reveal_strlit(r"(?i)(docker: command not found|bash: docker: command not found|command not found: docker)");
    reveal_strlit("(?i)(");
    let p = spec_catalog()[2].pattern@;
    assert(p.take(5) =~= "(?i)("@);
    reveal_strlit("docker: command not found");
    assert(p.subrange(5, 30) =~= "docker: command not found"@);
    assert(alternative_at(p, "docker: command not found"@, 5));
    reveal_strlit("bash: docker: command not found");
    assert(p.subrange(31, 62) =~= "bash: docker: command not found"@);
    assert(alternative_at(p, "bash: docker: command not found"@, 31));
    reveal_strlit("command not found: docker");
    assert(p.subrange(63, 88) =~= "command not found: docker"@);
    assert(alternative_at(p, "command not found: docker"@, 63));
}

/// The phrases the `PORT_ALREADY_IN_USE` entry stands for.
proof fn lemma_catalog_3()
    ensures
        spec_catalog()[3].code@ == "PORT_ALREADY_IN_USE"@,
        ci_alternative(spec_catalog()[3].pattern@, "address already in use"@),
        ci_alternative(spec_catalog()[3].pattern@, "bind: address already in use"@),
{
    reveal_strlit(r"(?i)(Bind for 0\.0\.0\.0:\d+ failed: port is already allocated|address already in use|bind: address already in use)");
    reveal_strlit("(?i)(");
    let p = spec_catalog()[3].pattern@;
    assert(p.take(5) =~= "(?i)("@);
    reveal_strlit("address already in use");
    assert(p.subrange(63, 85) =~= "address already in use"@);
    assert(alternative_at(p, "address already in use"@, 63));
    reveal_strlit("bind: address already in use");
    assert(p.subrange(86, 114) =~= "bind: address already in use"@);
    assert(alternative_at(p, "bind: address already in use"@, 86));
}

/// The phrases the `ENV_FILE_MISSING` entry stands for.
proof fn lemma_catalog_5()
    ensures
        spec_catalog()[5].code@ == "ENV_FILE_MISSING"@,
        ci_alternative(spec_catalog()[5].pattern@, "failed to open env file"@),
{
    reveal_strlit(r"(?i)(\.env.*(?:no such file|not found)|env file .* not found|failed to open env file)");
    reveal_strlit("(?i)(");
    let p = spec_catalog()[5].pattern@;
    assert(p.take(5) =~= "(?i)("@);
    reveal_strlit("failed to open env file");
    assert(p.subrange(61, 84) =~= "failed to open env file"@);
    assert(alternative_at(p, "failed to open env file"@, 61));
}

/// The phrases the `GHCR_LOGIN_FAILED` entry stands for.
proof fn lemma_catalog_6()
    ensures
        spec_catalog()[6].code@ == "GHCR_LOGIN_FAILED"@,
        ci_alternative(spec_catalog()[6].pattern@, "denied: requested access to the resource is denied"@),
        ci_alternative(spec_catalog()[6].pattern@, "unauthorized: authentication required"@),
{
    reveal_strlit(r"(?i)(denied: requested access to the resource is denied|unauthorized: authentication required|docker login.* failed)");
    reveal_strlit("(?i)(");
    let p = spec_catalog()[6].pattern@;
    assert(p.take(5) =~= "(?i)("@);
    reveal_strlit("denied: requested access to the resource is denied");
    assert(p.subrange(5, 55) =~= "denied: requested access to the resource is denied"@);
    assert(alternative_at(p, "denied: requested access to the resource is denied"@, 5));
    reveal_strlit("unauthorized: authentication required");
    assert(p.subrange(56, 93) =~= "unauthorized: authentication required"@);
    assert(alternative_at(p, "unauthorized: authentication required"@, 56));
}

/// The phrases the `DISK_FULL` entry stands for.
proof fn lemma_catalog_7()
    ensures
        spec_catalog()[7].code@ == "DISK_FULL"@,
        ci_alternative(spec_catalog()[7].pattern@, "no space left on device"@),
        ci_alternative(spec_catalog()[7].pattern@, "write error: No space left"@),
{
    reveal_strlit(r"(?i)(no space left on device|write error: No space left)");
    reveal_strlit("(?i)(");
    let p = spec_catalog()[7].pattern@;
    assert(p.take(5) =~= "(?i)("@);
    reveal_strlit("no space left on device");
    assert(p.subrange(5, 28) =~= "no space left on device"@);
    assert(alternative_at(p, "no space left on device"@, 5));
    reveal_strlit("write error: No space left");
    assert(p.subrange(29, 55) =~= "write error: No space left"@);
    assert(alternative_at(p, "write error: No space left"@, 29));
}

/// The phrases the `TRAEFIK_CERT_STUCK` entry stands for.
proof fn lemma_catalog_8()
    ensures
        spec_catalog()[8].code@ == "TRAEFIK_CERT_STUCK"@,
        ci_alternative(spec_catalog()[8].pattern@, "unable to generate a certificate"@),
        ci_alternative(spec_catalog()[8].pattern@, "too many certificates already issued"@),
{
    reveal_strlit(r"(?i)(acme: error.*authorization|unable to generate a certificate|too many certificates already issued)");
    reveal_strlit("(?i)(");
    let p = spec_catalog()[8].pattern@;
    assert(p.take(5) =~= "(?i)("@);
    reveal_strlit("unable to generate a certificate");
    assert(p.subrange(32, 64) =~= "unable to generate a certificate"@);
    assert(alternative_at(p, "unable to generate a certificate"@, 32));
    reveal_strlit("too many certificates already issued");
    assert(p.subrange(65, 101) =~= "too many certificates already issued"@);
    assert(alternative_at(p, "too many certificates already issued"@, 65));
}

/// Each catalog entry recognises the phrases it is for, in any case: its
/// pattern is case-insensitive and holds each phrase as a whole alternative.
/// `SSH_HOST_UNREACHABLE`: no route to host, network is unreachable, could
/// not resolve hostname, connection timed out; `DOCKER_NOT_INSTALLED`:
/// docker: command not found and its shell variants; `PORT_ALREADY_IN_USE`:
/// address already in use; `ENV_FILE_MISSING`: failed to open env file;
/// `GHCR_LOGIN_FAILED`: the registry's denial and authentication messages;
/// `DISK_FULL`: no space left on device; `TRAEFIK_CERT_STUCK`: unable to
/// generate a certificate, too many certificates already issued. The first
/// entry, `SSH_PERMISSION_DENIED`, is case-insensitive too.
pub proof fn law_catalog_phrases()
    ensures
        spec_catalog().len() == 10,
        starts_with(spec_catalog()[0].pattern@, "(?i)"@),
        spec_catalog()[1].code@ == "SSH_HOST_UNREACHABLE"@,
        ci_alternative(spec_catalog()[1].pattern@, "No route to host"@),
        ci_alternative(spec_catalog()[1].pattern@, "Network is unreachable"@),
        ci_alternative(spec_catalog()[1].pattern@, "Could not resolve hostname"@),
        ci_alternative(spec_catalog()[1].pattern@, "Connection timed out"@),
        spec_catalog()[2].code@ == "DOCKER_NOT_INSTALLED"@,
        ci_alternative(spec_catalog()[2].pattern@, "docker: command not found"@),
        ci_alternative(spec_catalog()[2].pattern@, "bash: docker: command not found"@),
        ci_alternative(spec_catalog()[2].pattern@, "command not found: docker"@),
        spec_catalog()[3].code@ == "PORT_ALREADY_IN_USE"@,
        ci_alternative(spec_catalog()[3].pattern@, "address already in use"@),
        ci_alternative(spec_catalog()[3].pattern@, "bind: address already in use"@),
        spec_catalog()[5].code@ == "ENV_FILE_MISSING"@,
        ci_alternative(spec_catalog()[5].pattern@, "failed to open env file"@),
        spec_catalog()[6].code@ == "GHCR_LOGIN_FAILED"@,
        ci_alternative(spec_catalog()[6].pattern@, "denied: requested access to the resource is denied"@),
        ci_alternative(spec_catalog()[6].pattern@, "unauthorized: authentication required"@),
        spec_catalog()[7].code@ == "DISK_FULL"@,
        ci_alternative(spec_catalog()[7].pattern@, "no space left on device"@),
        ci_alternative(spec_catalog()[7].pattern@, "write error: No space left"@),
        spec_catalog()[8].code@ == "TRAEFIK_CERT_STUCK"@,
        ci_alternative(spec_catalog()[8].pattern@, "unable to generate a certificate"@),
        ci_alternative(spec_catalog()[8].pattern@, "too many certificates already issued"@),
{
    reveal_strlit(r"(?i)Permission denied \(publickey");
    reveal_strlit("(?i)");
    assert(spec_catalog()[0].pattern@.take(4) =~= "(?i)"@);
    lemma_catalog_1();
    lemma_catalog_2();
    lemma_catalog_3();
    lemma_catalog_5();
    lemma_catalog_6();
    lemma_catalog_7();
    lemma_catalog_8();
}

} // verus!
