use bishop::project::{git_repo_from_config, load_project, normalize_git_url};

#[test]
fn ssh_shape() {
    assert_eq!(normalize_git_url("git@github.com:acme/sample-app"), "acme/sample-app");
}

#[test]
fn https_shape() {
    assert_eq!(normalize_git_url("https://github.com/acme/sample-app"), "acme/sample-app");
}

#[test]
fn https_with_auth() {
    assert_eq!(normalize_git_url("https://token@github.com/acme/sample-app"), "acme/sample-app");
}

#[test]
fn nested_group() {
    assert_eq!(
        normalize_git_url("https://gitlab.com/acme/group/subgroup/project"),
        "acme/group/subgroup/project"
    );
}

#[test]
fn ssh_nested() {
    assert_eq!(normalize_git_url("git@gitlab.com:acme/subgroup/project"), "acme/subgroup/project");
}

#[test]
fn unknown_and_hostless_shapes() {
    assert_eq!(normalize_git_url("/srv/git/repo"), "/srv/git/repo");
    assert_eq!(normalize_git_url("ssh://host"), "host");
    assert_eq!(normalize_git_url("git://github.com/a/b"), "a/b");
}

#[test]
fn git_config_first_url_wins() {
    let cfg = "[core]\n\tbare = false\n[remote \"origin\"]\n\turl = git@github.com:acme/app.git/\n\turl = https://x/y/z\n";
    assert_eq!(git_repo_from_config(cfg), Some("acme/app".to_string()));
    assert_eq!(git_repo_from_config("[core]\n"), None);
}

#[test]
fn load_project_needs_deploy_dir() {
    let p = load_project("/home/u/shop", true, true, vec![], Some("url = https://h/o/r.git\n")).unwrap();
    assert_eq!(p.name, "shop");
    assert_eq!(p.git_repo, Some("o/r".to_string()));
    let root = load_project("/", true, true, vec![], None).unwrap();
    assert_eq!(root.name, "project");
    let e = load_project("/home/u/shop", true, false, vec![], None).unwrap_err();
    assert_eq!(e, "no .deploy/ directory at /home/u/shop");
}

#[test]
fn load_project_name_not_text() {
    let p = load_project("/home/u/sh\u{FFFD}p", false, true, vec![], None).unwrap();
    assert_eq!(p.name, "project");
    assert_eq!(p.path, "/home/u/sh\u{FFFD}p");
}
