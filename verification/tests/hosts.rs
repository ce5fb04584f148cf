use bishop::hosts::parse_ssh_config;
use bishop::store::{SavedHost, Settings};

#[test]
fn ssh_config_blocks() {
    let cfg = "\
# my hosts
Host prod staging
    HostName 10.0.0.1
    User deploy
    Port 2222
    IdentityFile ~/.ssh/id_ed25519 # the key
Host *.internal bastion
  user=admin
  ProxyJump=me@jump
  Port notanumber
host prod
  User other
";
    let hosts = parse_ssh_config(cfg);
    let aliases: Vec<&str> = hosts.iter().map(|h| h.alias.as_str()).collect();
    assert_eq!(aliases, vec!["prod", "staging", "bastion"]);
    assert_eq!(hosts[0].hostname.as_deref(), Some("10.0.0.1"));
    assert_eq!(hosts[0].user.as_deref(), Some("deploy"));
    assert_eq!(hosts[0].port, Some(2222));
    assert_eq!(hosts[0].identity_file.as_deref(), Some("~/.ssh/id_ed25519"));
    assert_eq!(hosts[1].user.as_deref(), Some("deploy"));
    assert_eq!(hosts[2].user.as_deref(), Some("admin"));
    assert_eq!(hosts[2].proxy_jump.as_deref(), Some("me@jump"));
    assert_eq!(hosts[2].port, None);
    assert_eq!(hosts[2].hostname, None);
}

#[test]
fn settings_before_any_host_are_ignored() {
    let hosts = parse_ssh_config("User root\nHost a\n");
    assert_eq!(hosts.len(), 1);
    assert_eq!(hosts[0].user, None);
    assert!(parse_ssh_config("").is_empty());
    assert!(parse_ssh_config("Host * ?x\n  User u\n").is_empty());
}

fn host(id: &str, label: &str) -> SavedHost {
    SavedHost {
        id: id.to_string(),
        label: label.to_string(),
        user: "u".to_string(),
        host: "h".to_string(),
        port: None,
        identity: None,
        proxy_jump: None,
        initial_cwd: None,
        notes: None,
        use_tmux: false,
        tmux_session: None,
    }
}

#[test]
fn saved_hosts_edits() {
    let mut s = Settings::new();
    let a = s.add_saved_host(host("a", "A"));
    assert_eq!(a.id, "a");
    let fresh = s.add_saved_host(host("", "B"));
    assert_eq!(fresh.id.len(), 36);
    assert_eq!(fresh.id.matches('-').count(), 4);
    for (i, c) in fresh.id.chars().enumerate() {
        if [8, 13, 18, 23].contains(&i) {
            assert_eq!(c, '-');
        } else {
            assert!(c.is_ascii_digit() || ('a'..='f').contains(&c), "{}", fresh.id);
        }
    }
    assert_eq!(fresh.id.chars().nth(14), Some('4'));
    assert_eq!(s.saved_hosts.len(), 2);
    assert_eq!(s.saved_hosts[1].id, fresh.id);

    assert!(s.update_saved_host(host("a", "A2")).is_ok());
    assert_eq!(s.saved_hosts[0].label, "A2");
    assert_eq!(s.update_saved_host(host("zz", "Z")).unwrap_err(), "host 'zz' not found");

    s.remove_saved_host("a");
    assert_eq!(s.saved_hosts.len(), 1);
    assert_eq!(s.saved_hosts[0].label, "B");
    s.remove_saved_host("nope");
    assert_eq!(s.saved_hosts.len(), 1);
}

#[test]
fn project_paths_edits() {
    let mut s = Settings::new();
    s.add_project_path("/a");
    s.add_project_path("/b");
    s.add_project_path("/a");
    assert_eq!(s.project_paths, vec!["/a".to_string(), "/b".to_string()]);
    s.remove_project_path("/a");
    assert_eq!(s.project_paths, vec!["/b".to_string()]);
}
