use bishop::deploy::{
    check_subcommand, choose_deploy_script, compose_service, deploy_notification, deploy_outcome, find_environment,
    finish_deploy, log_line, logs_command, metrics_line, restart_command, trim_eol, DeployLog,
    METRICS_COMMAND,
};
use bishop::types::{Environment, Project};

fn env(name: &str, app: &str) -> Environment {
    Environment {
        name: name.to_string(),
        ssh_user: "deploy".to_string(),
        ssh_host: format!("{}.example.com", name),
        app_name: app.to_string(),
        domain: None,
        app_dir: format!("/opt/apps/{}", app),
    }
}

fn project() -> Project {
    Project {
        path: "/p/app".to_string(),
        name: "app".to_string(),
        git_repo: None,
        remotes: vec![env("production", "shop"), env("staging", "shop-stg"), env("staging", "other")],
    }
}

#[test]
fn finds_the_first_environment_of_that_name() {
    let p = project();
    let e = find_environment(&p, "staging").unwrap();
    assert_eq!(e.app_name, "shop-stg");
    assert_eq!(find_environment(&p, "production").unwrap().ssh_host, "production.example.com");
    assert_eq!(find_environment(&p, "preview").unwrap_err(), "environment 'preview' not found");
}

#[test]
fn line_endings_are_dropped() {
    for (input, expected) in [("abc\n", "abc"), ("abc\r\n", "abc"), ("abc\r", "abc"), ("abc", "abc"), ("\n", ""), ("a\n\n", "a\n"), ("", "")] {
        let mut s = input.to_string();
        trim_eol(&mut s);
        assert_eq!(s, expected, "{:?}", input);
    }
}

#[test]
fn deploy_outcomes() {
    assert_eq!(deploy_outcome(false, Some(true)), (true, "success".to_string()));
    assert_eq!(deploy_outcome(false, Some(false)), (false, "failed".to_string()));
    assert_eq!(deploy_outcome(false, None), (false, "failed".to_string()));
    assert_eq!(deploy_outcome(true, Some(true)), (false, "cancelled".to_string()));
}

#[test]
fn notifications() {
    assert_eq!(deploy_notification("prod", "success", false), Some(("Deploy succeeded".to_string(), "prod is live.".to_string())));
    assert_eq!(deploy_notification("prod", "failed", false), Some(("Deploy failed".to_string(), "prod returned a non-zero exit.".to_string())));
    assert_eq!(deploy_notification("prod", "cancelled", false), Some(("Deploy cancelled".to_string(), "prod was cancelled.".to_string())));
    assert_eq!(deploy_notification("prod", "odd", false), Some(("Deploy finished".to_string(), "prod: odd".to_string())));
    assert_eq!(deploy_notification("prod", "success", true), None);
}

#[test]
fn restart_strips_the_app_prefix() {
    assert_eq!(compose_service("myapp", "myapp-staging-worker"), "staging-worker");
    assert_eq!(compose_service("myapp", "postgres"), "postgres");
    assert_eq!(compose_service("myapp", "myapp"), "myapp");
    assert_eq!(
        restart_command("myapp", "/opt/apps/myapp", "myapp-worker"),
        "cd '/opt/apps/myapp' && set -a && source .env && set +a && docker compose -f docker-compose.prod.yml restart 'worker'"
    );
    assert_eq!(
        restart_command("a", "/opt/it's", "x'y"),
        "cd '/opt/it'\\''s' && set -a && source .env && set +a && docker compose -f docker-compose.prod.yml restart 'x'\\''y'"
    );
}

#[test]
fn log_streams() {
    assert_eq!(logs_command("shop-app"), "docker logs -f --tail 200 --timestamps 'shop-app'");
    assert_eq!(log_line(true, "boom"), "[stderr] boom");
    assert_eq!(log_line(false, "fine"), "fine");
}

#[test]
fn metrics_lines() {
    assert_eq!(METRICS_COMMAND, "docker stats --no-trunc --format '{{json .}}'");
    assert_eq!(metrics_line("  {\"Name\":\"x\"}\n"), Some("{\"Name\":\"x\"}".to_string()));
    assert_eq!(metrics_line("   \n"), None);
    assert_eq!(metrics_line("CONTAINER ID"), None);
}

#[test]
fn step_allowlist() {
    assert!(check_subcommand("setup-server").is_ok());
    assert!(check_subcommand("setup-app").is_ok());
    assert!(check_subcommand("setup-github").is_ok());
    assert_eq!(check_subcommand("destroy").unwrap_err(), "subcommand 'destroy' is not allowed");
    assert_eq!(check_subcommand("setup-server ").unwrap_err(), "subcommand 'setup-server ' is not allowed");
}

#[test]
fn deploy_log_records_shown_lines() {
    let mut log = DeployLog::new();
    assert_eq!(log.record_line("building\r\n".to_string()), "building");
    assert_eq!(log.record_line("done".to_string()), "done");
    assert_eq!(log.record_line("\n".to_string()), "");
    assert_eq!(log.text, "building\ndone\n\n");
}

#[test]
fn finished_deploy_reports() {
    let r = finish_deploy("prod", false, Some(true), Some(0), false);
    assert!(r.ok);
    assert_eq!(r.status, "success");
    assert_eq!(r.code, Some(0));
    assert_eq!(r.notification, Some(("Deploy succeeded".to_string(), "prod is live.".to_string())));
    let r = finish_deploy("prod", true, None, None, true);
    assert!(!r.ok);
    assert_eq!(r.status, "cancelled");
    assert_eq!(r.notification, None);
    let r = finish_deploy("stg", false, Some(false), Some(2), false);
    assert_eq!(r.status, "failed");
    assert_eq!(r.code, Some(2));
    assert_eq!(r.notification.unwrap().1, "stg returned a non-zero exit.");
}

#[test]
fn deploy_script_local_copy_wins() {
    assert_eq!(choose_deploy_script(true, "/p/deploy".to_string(), Err("missing".to_string())), Ok("/p/deploy".to_string()));
    assert_eq!(
        choose_deploy_script(false, "/p/deploy".to_string(), Ok("/app/resources/deploy".to_string())),
        Ok("/app/resources/deploy".to_string())
    );
    assert_eq!(
        choose_deploy_script(false, "/p/deploy".to_string(), Err::<String, String>("bundled deploy script missing".to_string())),
        Err("bundled deploy script missing".to_string())
    );
}
