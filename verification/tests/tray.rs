use bishop::hosts::SshConfigHost;
use bishop::store::SavedHost;
use bishop::tray::{
    connect_alias_id, connect_host_id, open_env_id, open_project_id, parse_menu_id, tray_menu,
    MenuEntry, SubEntry, TrayAction,
};
use bishop::types::{Environment, Project};

#[test]
fn ids_round_trip() {
    match parse_menu_id(&open_project_id("/Users/me/shop")) {
        TrayAction::OpenProject(p) => assert_eq!(p, "/Users/me/shop"),
        other => panic!("{:?}", other),
    }
    match parse_menu_id(&open_env_id("/Users/me/shop", "staging")) {
        TrayAction::OpenEnv { project_path, env } => {
            assert_eq!(project_path, "/Users/me/shop");
            assert_eq!(env, "staging");
        }
        other => panic!("{:?}", other),
    }
    match parse_menu_id(&connect_host_id("1234")) {
        TrayAction::ConnectHost(h) => assert_eq!(h, "1234"),
        other => panic!("{:?}", other),
    }
    match parse_menu_id(&connect_alias_id("prod")) {
        TrayAction::ConnectAlias(a) => assert_eq!(a, "prod"),
        other => panic!("{:?}", other),
    }
}

#[test]
fn fixed_and_unknown_ids() {
    assert!(matches!(parse_menu_id("show"), TrayAction::Show));
    assert!(matches!(parse_menu_id("hide"), TrayAction::Hide));
    assert!(matches!(parse_menu_id("quit"), TrayAction::Quit));
    assert!(matches!(parse_menu_id("noop-projects"), TrayAction::Ignore));
    assert!(matches!(parse_menu_id("open-env:no-separator"), TrayAction::Ignore));
    assert!(matches!(parse_menu_id("Show"), TrayAction::Ignore));
    // the path ends at the first `::`
    match parse_menu_id("open-env:a::b::c") {
        TrayAction::OpenEnv { project_path, env } => {
            assert_eq!(project_path, "a");
            assert_eq!(env, "b::c");
        }
        other => panic!("{:?}", other),
    }
}

fn item_ids(items: &[SubEntry]) -> Vec<String> {
    items
        .iter()
        .map(|e| match e {
            SubEntry::Item(i) => i.id.clone(),
            SubEntry::Separator => "-".to_string(),
        })
        .collect()
}

#[test]
fn empty_menu() {
    let m = tray_menu(&vec![], &vec![], &vec![]);
    assert_eq!(m.len(), 6);
    match &m[0] {
        MenuEntry::Item(i) => {
            assert_eq!(i.id, "noop-projects");
            assert_eq!(i.label, "No projects yet");
            assert!(!i.enabled);
        }
        other => panic!("{:?}", other),
    }
    assert!(matches!(m[1], MenuEntry::Separator));
    assert!(matches!(&m[2], MenuEntry::Item(i) if i.id == "show" && i.label == "Show Bishop"));
    assert!(matches!(&m[3], MenuEntry::Item(i) if i.id == "hide"));
    assert!(matches!(m[4], MenuEntry::Separator));
    assert!(matches!(&m[5], MenuEntry::Item(i) if i.id == "quit" && i.accelerator.as_deref() == Some("CmdOrCtrl+Q")));
}

#[test]
fn full_menu() {
    let env = Environment {
        name: "staging".to_string(),
        ssh_user: "deploy".to_string(),
        ssh_host: "s.example.com".to_string(),
        app_name: "shop".to_string(),
        domain: None,
        app_dir: "/opt/apps/shop".to_string(),
    };
    let proj = Project { path: "/p/shop".to_string(), name: "shop".to_string(), git_repo: None, remotes: vec![env] };
    let projects = vec![("/p/gone".to_string(), None), ("/p/shop".to_string(), Some(proj))];
    let saved = vec![SavedHost {
        id: "h1".to_string(),
        label: "Box".to_string(),
        user: "me".to_string(),
        host: "box".to_string(),
        port: None,
        identity: None,
        proxy_jump: None,
        initial_cwd: None,
        notes: None,
        use_tmux: false,
        tmux_session: None,
    }];
    let aliases: Vec<SshConfigHost> = (0..60)
        .map(|i| SshConfigHost {
            alias: format!("a{}", i),
            user: None,
            hostname: None,
            port: None,
            identity_file: None,
            proxy_jump: None,
        })
        .collect();
    let m = tray_menu(&projects, &saved, &aliases);
    assert_eq!(m.len(), 9);
    match &m[0] {
        MenuEntry::Submenu { title, items } => {
            assert_eq!(title, "shop");
            assert_eq!(item_ids(items), vec!["open-project:/p/shop", "-", "open-env:/p/shop::staging"]);
            match &items[2] {
                SubEntry::Item(i) => assert_eq!(i.label, "staging  \u{2014}  deploy@s.example.com"),
                _ => panic!(),
            }
        }
        other => panic!("{:?}", other),
    }
    assert!(matches!(m[1], MenuEntry::Separator));
    match &m[2] {
        MenuEntry::Submenu { title, items } => {
            assert_eq!(title, "Saved hosts");
            assert_eq!(item_ids(items), vec!["connect-host:h1"]);
            match &items[0] {
                SubEntry::Item(i) => assert_eq!(i.label, "Box  \u{2014}  me@box"),
                _ => panic!(),
            }
        }
        other => panic!("{:?}", other),
    }
    match &m[3] {
        MenuEntry::Submenu { title, items } => {
            assert_eq!(title, "SSH config");
            assert_eq!(items.len(), 50);
            assert_eq!(item_ids(&items[49..]), vec!["connect-alias:a49"]);
        }
        other => panic!("{:?}", other),
    }
    assert!(matches!(m[4], MenuEntry::Separator));
}
