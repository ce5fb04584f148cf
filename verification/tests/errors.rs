use bishop::errors::{match_error, tail_lines};
use bishop::ssh_test::{ssh_test_result, PROBE_COMMAND};

#[test]
fn permission_denied_is_recognized() {
    let e = match_error("git@host: Permission denied (publickey).").unwrap();
    assert_eq!(e.code, "SSH_PERMISSION_DENIED");
    assert_eq!(e.message, "The server refused your SSH key.");
    assert!(e.hint.is_some());
    assert_eq!(e.docs_url.as_deref(), Some("https://docs.github.com/en/authentication/troubleshooting-ssh"));
    assert!(e.action.is_none());
    assert_eq!(e.raw.as_deref(), Some("git@host: Permission denied (publickey)."));
}

#[test]
fn catalog_codes_and_actions() {
    assert_eq!(match_error("ssh: Could not resolve hostname foo").unwrap().code, "SSH_HOST_UNREACHABLE");
    let d = match_error("bash: docker: command not found").unwrap();
    assert_eq!(d.code, "DOCKER_NOT_INSTALLED");
    let a = d.action.unwrap();
    assert_eq!((a.label.as_str(), a.kind.as_str(), a.payload.as_deref()), ("Run setup-server", "run_step", Some("setup-server")));
    assert_eq!(match_error("Bind for 0.0.0.0:80 failed: port is already allocated").unwrap().code, "PORT_ALREADY_IN_USE");
    let c = match_error("scp: /x/docker-compose.prod.yml: No such file or directory").unwrap();
    assert_eq!(c.code, "COMPOSE_FILE_MISSING");
    assert_eq!(c.action.unwrap().payload.as_deref(), Some("compose"));
    assert_eq!(match_error("failed to open env file").unwrap().code, "ENV_FILE_MISSING");
    assert_eq!(match_error("unauthorized: authentication required").unwrap().code, "GHCR_LOGIN_FAILED");
    assert_eq!(match_error("write /x: no space left on device").unwrap().code, "DISK_FULL");
    assert_eq!(match_error("too many certificates already issued").unwrap().code, "TRAEFIK_CERT_STUCK");
    assert_eq!(match_error("bash: line 12: $FOO: unbound variable").unwrap().code, "BASH_UNBOUND_VARIABLE");
}

#[test]
fn first_entry_wins_and_unknown_text_is_none() {
    // Both the permission and the reachability patterns occur; the first entry wins.
    let e = match_error("Connection timed out\nPermission denied (publickey)").unwrap();
    assert_eq!(e.code, "SSH_PERMISSION_DENIED");
    assert!(match_error("all good").is_none());
    assert!(match_error("").is_none());
    // the unbound-variable pattern is case sensitive
    assert!(match_error("BASH: LINE 1: $X: UNBOUND VARIABLE").is_none());
}

#[test]
fn raw_keeps_the_last_twenty_nonblank_lines() {
    let mut text = String::new();
    for i in 0..30 {
        text.push_str(&format!("line {}\n\n", i));
    }
    text.push_str("no space left on device\n");
    let e = match_error(&text).unwrap();
    let raw = e.raw.unwrap();
    assert_eq!(raw.lines().count(), 20);
    assert!(raw.starts_with("line 11\n"));
    assert!(raw.ends_with("no space left on device"));
}

#[test]
fn tail_of_lines() {
    assert_eq!(tail_lines("a\n\n  \nb\nc\n", 2), "b\nc");
    assert_eq!(tail_lines("a\nb", 5), "a\nb");
    assert_eq!(tail_lines("", 3), "");
    assert_eq!(tail_lines("a\nb", 0), "");
}

#[test]
fn ssh_probe_results() {
    assert_eq!(PROBE_COMMAND, "uname -a");
    let ok = ssh_test_result(Ok("  Linux box 5.15 x86_64\n".to_string()));
    assert!(ok.ok);
    assert_eq!(ok.message.as_deref(), Some("Linux box 5.15 x86_64"));
    assert!(ok.error.is_none() && ok.raw.is_none());

    let bad = ssh_test_result(Err("ssh: connect to host x: No route to host".to_string()));
    assert!(!bad.ok);
    assert!(bad.message.is_none());
    assert_eq!(bad.error.unwrap().code, "SSH_HOST_UNREACHABLE");
    assert_eq!(bad.raw.as_deref(), Some("ssh: connect to host x: No route to host"));

    let odd = ssh_test_result(Err("weird".to_string()));
    assert!(odd.error.is_none());
    assert_eq!(odd.raw.as_deref(), Some("weird"));
}
