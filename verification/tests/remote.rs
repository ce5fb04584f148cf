use bishop::containers::{containers_from_rows, extract_health, split_ports, DockerPsRow};
use bishop::project::{git_repo_from_config, load_project};
use bishop::remote::{environments_from_files, parse_remote_file};

#[test]
fn remote_files() {
    let e = parse_remote_file("production", " deploy@1.2.3.4:shop.example.com\n").unwrap();
    assert_eq!(e.name, "production");
    assert_eq!(e.ssh_user, "deploy");
    assert_eq!(e.ssh_host, "1.2.3.4");
    assert_eq!(e.app_name, "shop");
    assert_eq!(e.domain.as_deref(), Some("example.com"));
    assert_eq!(e.app_dir, "/opt/apps/shop");

    let e = parse_remote_file("dev", "me@box:app").unwrap();
    assert_eq!(e.app_name, "app");
    assert_eq!(e.domain, None);

    assert_eq!(parse_remote_file("x", " \n\t").unwrap_err(), "remote file x is empty");
    assert_eq!(parse_remote_file("x", "me@box").unwrap_err(), "remote 'x' missing ':' separator");
    assert_eq!(parse_remote_file("x", "box:app").unwrap_err(), "remote 'x' ssh part missing '@'");
}

#[test]
fn environments_sorted_by_name_and_bad_files_skipped() {
    let files = vec![
        ("staging".to_string(), "u@s:app.s.example.com".to_string()),
        (".DS_Store".to_string(), "u@h:x".to_string()),
        ("broken".to_string(), "nothing here".to_string()),
        ("production".to_string(), "u@p:app.example.com".to_string()),
    ];
    let envs = environments_from_files(&files);
    let names: Vec<&str> = envs.iter().map(|e| e.name.as_str()).collect();
    assert_eq!(names, vec!["production", "staging"]);
}

#[test]
fn containers_of_an_app() {
    let row = |names: &str, status: &str, ports: &str| DockerPsRow {
        names: names.to_string(),
        state: "running".to_string(),
        status: status.to_string(),
        image: "img".to_string(),
        ports: ports.to_string(),
    };
    let rows = vec![
        row("shop-worker", "Up 2 hours (healthy)", ""),
        row("other-app", "Up", ""),
        row("shop", "Up 1 hour (unhealthy)", "0.0.0.0:80->80/tcp, :::80->80/tcp"),
        row("shop-app", "Up 5 seconds (health: starting)", " 3000/tcp ,"),
        row("shopping", "Up", ""),
    ];
    let cs = containers_from_rows("shop", &rows);
    let names: Vec<&str> = cs.iter().map(|c| c.name.as_str()).collect();
    // only `<app>-…` names belong to the app
    assert_eq!(names, vec!["shop-app", "shop-worker"]);
    assert_eq!(cs[0].health.as_deref(), Some("starting"));
    assert_eq!(cs[0].ports, vec!["3000/tcp".to_string()]);
    assert_eq!(cs[1].health.as_deref(), Some("healthy"));
    assert!(cs[1].ports.is_empty());
    let web = containers_from_rows("web", &vec![row("web-proxy", "Up 1 hour (unhealthy)", "0.0.0.0:80->80/tcp, :::80->80/tcp")]);
    assert_eq!(web[0].health.as_deref(), Some("unhealthy"));
    assert_eq!(web[0].ports, vec!["0.0.0.0:80->80/tcp".to_string(), ":::80->80/tcp".to_string()]);
}

#[test]
fn health_and_ports() {
    assert_eq!(extract_health("Up 3 minutes (HEALTHY)").as_deref(), Some("healthy"));
    assert_eq!(extract_health("Exited (1) 2 minutes ago"), None);
    assert_eq!(split_ports(""), Vec::<String>::new());
    assert_eq!(split_ports("a, ,b"), vec!["a".to_string(), "b".to_string()]);
}

#[test]
fn projects() {
    let p = load_project("/Users/me/code/shop", true, true, vec![], Some("[remote \"origin\"]\n\turl = git@github.com:acme/shop.git\n")).unwrap();
    assert_eq!(p.name, "shop");
    assert_eq!(p.path, "/Users/me/code/shop");
    assert!(p.remotes.is_empty());
    assert_eq!(p.git_repo.as_deref(), Some("acme/shop"));
    assert_eq!(load_project("/x/y", true, false, vec![], None).unwrap_err(), "no .deploy/ directory at /x/y");
    assert_eq!(git_repo_from_config("[core]\n\tbare = false\n"), None);
}
