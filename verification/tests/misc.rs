use base64::Engine;
use bishop::audit::{actor_id, actor_label};
use bishop::env_vars::{env_cat_command, env_write_command, env_write_command_encoded};
use bishop::onepassword::{check_op_reference, op_read_result, OpStatus};
use bishop::sample::{clone_args, exists_message, git_error, validate_folder_name, STARTER_URL};
use bishop::scaffold::{
    compose_rel, dockerfile_rel, dockerignore_rel, shared_compose_rel, shared_init_db_rel,
    shared_traefik_rel, SharedStatus,
};
use bishop::scrollback::{sanitize, scrollback_from_file, session_file_name};
use bishop::ssh::{base_args, exec_args, friendly_ssh_error, reachable_args};

#[test]
fn op_status_from_probes() {
    let s = OpStatus::from_probes(false, true);
    assert!(!s.installed && !s.signed_in);
    let s = OpStatus::from_probes(true, false);
    assert!(s.installed && !s.signed_in);
    let s = OpStatus::from_probes(true, true);
    assert!(s.installed && s.signed_in);
}

#[test]
fn op_read() {
    assert!(check_op_reference("op://Vault/Item/field").is_ok());
    assert_eq!(check_op_reference("Vault/Item").unwrap_err(), "reference must start with op://");
    assert_eq!(op_read_result(true, "s3cret\n", ""), Ok("s3cret".to_string()));
    assert_eq!(op_read_result(true, "a b\r\n\n", ""), Ok("a b".to_string()));
    assert_eq!(op_read_result(true, "  x  ", ""), Ok("  x  ".to_string()));
    assert_eq!(op_read_result(false, "", "  [ERROR] not signed in\n"), Err("[ERROR] not signed in".to_string()));
}

#[test]
fn sample_clone() {
    assert_eq!(validate_folder_name("   ").unwrap_err(), "folder name is required");
    let bad = "folder name must be a simple filename (no slashes or leading dot)";
    assert_eq!(validate_folder_name("a/b").unwrap_err(), bad);
    assert_eq!(validate_folder_name("a\\b").unwrap_err(), bad);
    assert_eq!(validate_folder_name(".git").unwrap_err(), bad);
    assert!(validate_folder_name("my-app").is_ok());
    assert!(validate_folder_name(" my app").is_ok());
    let args = clone_args("/tmp/x/my-app");
    assert_eq!(args, vec!["clone", "--depth", "1", STARTER_URL, "/tmp/x/my-app"]);
    assert_eq!(git_error(&args, "fatal: nope\n"), format!("git clone --depth 1 {} /tmp/x/my-app: fatal: nope", STARTER_URL));
    assert_eq!(git_error(&vec![], ""), "git : ");
    assert_eq!(
        exists_message("/tmp/x/my-app"),
        "/tmp/x/my-app already exists \u{2014} pick a different folder name or remove the existing one"
    );
}

#[test]
fn scaffold_locations() {
    assert_eq!(compose_rel(), ".deploy/infra/docker-compose.prod.yml");
    assert_eq!(dockerfile_rel(), "Dockerfile");
    assert_eq!(shared_compose_rel(), ".deploy/infra/shared/docker-compose.yml");
    assert_eq!(shared_init_db_rel(), ".deploy/infra/shared/init-databases.sh");
    assert_eq!(shared_traefik_rel(), ".deploy/infra/shared/traefik/traefik.yml");
    assert_eq!(dockerignore_rel(), ".dockerignore");
    let s = SharedStatus::absent();
    assert!(!s.compose && !s.init_db && !s.traefik && !s.complete());
    assert!(SharedStatus { compose: true, init_db: true, traefik: true }.complete());
    assert!(!SharedStatus { compose: true, init_db: false, traefik: true }.complete());
}

#[test]
fn actor() {
    assert_eq!(actor_label("me", Some("laptop")), "me@laptop");
    assert_eq!(actor_label("me", None), "me@unknown");
    let a = actor_id();
    assert!(a.contains('@'));
}

#[test]
fn env_file_commands() {
    assert_eq!(env_cat_command("/opt/apps/shop"), "cat '/opt/apps/shop'/.env");
    assert_eq!(
        env_write_command_encoded("/opt/apps/shop", "QT0x"),
        "printf '%s' 'QT0x' | base64 -d > '/opt/apps/shop'/.env.tmp && mv '/opt/apps/shop'/.env.tmp '/opt/apps/shop'/.env"
    );
    let content = "A=1\nB='x'\n";
    let encoded = base64::engine::general_purpose::STANDARD.encode(content.as_bytes());
    assert_eq!(env_write_command("/opt/apps/shop", content), env_write_command_encoded("/opt/apps/shop", &encoded));
    assert!(env_write_command("/d", "A=1").contains("'QT0x'"));
}

#[test]
fn scrollback_files() {
    assert_eq!(sanitize("me@host:22/x y"), "me@host_22_x_y");
    assert_eq!(sanitize("Saved:ABC-1"), "saved_abc-1");
    assert_eq!(sanitize(&"a".repeat(200)).len(), 160);
    assert_eq!(session_file_name("prod"), "prod.txt");
    let s = scrollback_from_file(None, 99);
    assert_eq!(s.data, "");
    assert_eq!(s.saved_at, 0);
    let s = scrollback_from_file(Some(b"hi".to_vec()), 42);
    assert_eq!(s.data, "aGk=");
    assert_eq!(s.saved_at, 42);
}

#[test]
fn ssh_command_lines() {
    let args = base_args("/home/me/.ssh/bishop", "deploy", "h");
    assert_eq!(
        args,
        vec![
            "-o", "BatchMode=yes", "-o", "ConnectTimeout=10", "-o", "ServerAliveInterval=30", "-o",
            "ControlMaster=auto", "-o", "ControlPath=/home/me/.ssh/bishop/%C", "-o", "ControlPersist=600",
            "deploy@h",
        ]
    );
    assert_eq!(exec_args("/d/", "u", "h", "uname -a").last().unwrap(), "uname -a");
    assert_eq!(exec_args("/d/", "u", "h", "x")[9], "ControlPath=/d/%C");
    let probe = reachable_args("/d", "u", "h");
    assert_eq!(probe[3], "ConnectTimeout=4");
    assert_eq!(probe.last().unwrap(), "echo ok");
    assert_eq!(probe.len(), 12);
}

#[test]
fn friendly_ssh_errors() {
    assert_eq!(
        friendly_ssh_error("u", "h", "u@h: Permission denied (publickey)."),
        "SSH permission denied for u@h \u{2014} is your key added (ssh-add) or in ~/.ssh/config?"
    );
    assert_eq!(friendly_ssh_error("u", "h", "CONNECTION REFUSED"), "Connection refused by u@h \u{2014} is SSH running on port 22?");
    assert_eq!(friendly_ssh_error("u", "h", "Operation timed out"), "Connection timed out to u@h \u{2014} host unreachable or firewalled");
    assert_eq!(friendly_ssh_error("u", "h", "No route to host"), "Host u@h is unreachable");
    assert_eq!(friendly_ssh_error("u", "h", "ssh: Could not resolve hostname h"), "Cannot resolve hostname in u@h");
    assert_eq!(friendly_ssh_error("u", "h", "Host key verification failed."), "Host key mismatch for u@h \u{2014} check ~/.ssh/known_hosts");
    assert_eq!(friendly_ssh_error("u", "h", "  boom \n"), "ssh u@h failed: boom");
}

#[test]
fn terminal_output_encoding() {
    assert_eq!(bishop::codec::encode_output(b""), "");
    assert_eq!(bishop::codec::encode_output(b"f"), "Zg==");
    assert_eq!(bishop::codec::encode_output(b"fo"), "Zm8=");
    assert_eq!(bishop::codec::encode_output(b"foobar"), "Zm9vYmFy");
    assert_eq!(bishop::codec::encode_output(&[0xfb, 0xff]), "+/8=");
    assert_eq!(bishop::codec::decode_payload("+/8=").unwrap(), vec![0xfb, 0xff]);
}
