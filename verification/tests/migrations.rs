use bishop::db::{
    add_column_plan, add_column_sql, column_listed, migration_failure, migrations, pending_migrations,
    run, table_info_sql, MigrateError, MigrationAction, MigrationOutcome, MigrationRun, INITIAL_SCHEMA,
    RECORD_VERSION, SCHEMA_VERSION_TABLE, VERSION_QUERY,
};
use rusqlite::Connection;

fn mem_conn() -> Connection {
    Connection::open_in_memory().unwrap()
}

#[test]
fn applies_all_on_fresh_db() {
    let c = mem_conn();
    run(&c).unwrap();
    let v: u32 = c
        .query_row("SELECT MAX(version) FROM schema_version", [], |r| r.get(0))
        .unwrap();
    assert_eq!(v, migrations().last().unwrap().0);
}

#[test]
fn idempotent_second_call() {
    let c = mem_conn();
    run(&c).unwrap();
    let first_count: u32 = c
        .query_row("SELECT COUNT(*) FROM schema_version", [], |r| r.get(0))
        .unwrap();
    run(&c).unwrap();
    let second_count: u32 = c
        .query_row("SELECT COUNT(*) FROM schema_version", [], |r| r.get(0))
        .unwrap();
    assert_eq!(first_count, second_count);
}

#[test]
fn migrates_from_preexisting_v1_schema() {
    // A database created before the migration runner existed: the first
    // migration must leave it as it is.
    let c = mem_conn();
    c.execute_batch(
        "CREATE TABLE deploys (
            id INTEGER PRIMARY KEY AUTOINCREMENT,
            project_path TEXT NOT NULL,
            env TEXT NOT NULL,
            started_at TEXT NOT NULL,
            finished_at TEXT,
            status TEXT NOT NULL,
            exit_code INTEGER,
            log TEXT NOT NULL DEFAULT ''
        );",
    )
    .unwrap();
    run(&c).unwrap();
    let has_actor: bool = c
        .query_row(
            "SELECT 1 FROM pragma_table_info('deploys') WHERE name='actor_id'",
            [],
            |r| r.get::<_, i32>(0),
        )
        .map(|_| true)
        .unwrap_or(false);
    assert!(has_actor, "actor_id should have been added");
}

#[test]
fn migrates_from_preexisting_v2_schema() {
    // A database that got actor_id without a schema_version row: the
    // column migration sees the column and does nothing.
    let c = mem_conn();
    c.execute_batch(
        "CREATE TABLE deploys (
            id INTEGER PRIMARY KEY AUTOINCREMENT,
            project_path TEXT NOT NULL,
            env TEXT NOT NULL,
            started_at TEXT NOT NULL,
            finished_at TEXT,
            status TEXT NOT NULL,
            exit_code INTEGER,
            log TEXT NOT NULL DEFAULT '',
            actor_id TEXT
        );",
    )
    .unwrap();
    run(&c).unwrap();
}

#[test]
fn pending_by_recorded_version() {
    assert_eq!(pending_migrations(0), vec![(1, "initial_schema"), (2, "deploys_actor_id")]);
    assert_eq!(pending_migrations(1), vec![(2, "deploys_actor_id")]);
    assert!(pending_migrations(2).is_empty());
    assert!(pending_migrations(7).is_empty());
}

#[test]
fn column_statements() {
    assert_eq!(table_info_sql("deploys"), "PRAGMA table_info(deploys)");
    assert_eq!(add_column_sql("deploys", "actor_id", "TEXT"), "ALTER TABLE deploys ADD COLUMN actor_id TEXT");
    let names = vec![Some("id".to_string()), None, Some("actor_id".to_string())];
    assert!(column_listed(&names, "actor_id"));
    assert!(!column_listed(&names, "log"));
    assert!(!column_listed(&vec![], "id"));
}

#[test]
fn failing_migration_is_reported_and_rolled_back() {
    // A `deploys` view makes the column migration fail; its message names it.
    let c = mem_conn();
    c.execute_batch(
        "CREATE TABLE schema_version (version INTEGER PRIMARY KEY, name TEXT NOT NULL, applied_at TEXT NOT NULL DEFAULT (datetime('now')));
         INSERT INTO schema_version (version, name) VALUES (1, 'initial_schema');
         CREATE VIEW deploys AS SELECT 1 AS id;",
    )
    .unwrap();
    let err = run(&c).unwrap_err();
    let msg = err.message();
    assert!(msg.starts_with("migration 2 (deploys_actor_id) failed: "), "{}", msg);
    match err {
        MigrateError::Failed { version, name, applied, .. } => {
            assert_eq!(version, 2);
            assert_eq!(name, "deploys_actor_id");
            assert!(applied.is_empty());
        }
        other => panic!("{:?}", other),
    }
    let count: u32 = c
        .query_row("SELECT COUNT(*) FROM schema_version", [], |r| r.get(0))
        .unwrap();
    assert_eq!(count, 1);
}

#[test]
fn run_reports_the_versions_applied() {
    let c = mem_conn();
    assert_eq!(run(&c).unwrap(), vec![1, 2]);
    assert_eq!(run(&c).unwrap(), Vec::<u32>::new());
}

#[test]
fn failure_after_a_committed_migration() {
    // version 1 commits, then recording version 2 fails: 1 stays recorded, 2 does not
    let c = mem_conn();
    c.execute_batch(
        "CREATE TABLE schema_version (version INTEGER PRIMARY KEY, name TEXT NOT NULL, applied_at TEXT NOT NULL DEFAULT (datetime('now')));
         CREATE TRIGGER stop_two BEFORE INSERT ON schema_version WHEN NEW.version = 2
         BEGIN SELECT RAISE(ABORT, 'refused'); END;",
    )
    .unwrap();
    let err = run(&c).unwrap_err();
    match &err {
        MigrateError::Failed { version, applied, .. } => {
            assert_eq!(*version, 2);
            assert_eq!(applied, &vec![1]);
        }
        other => panic!("{:?}", other),
    }
    let versions: Vec<u32> = c
        .prepare("SELECT version FROM schema_version ORDER BY version")
        .unwrap()
        .query_map([], |r| r.get(0))
        .unwrap()
        .map(|r| r.unwrap())
        .collect();
    assert_eq!(versions, vec![1]);
}

#[test]
fn add_column_plans() {
    let names = vec![Some("id".to_string()), None];
    assert_eq!(add_column_plan(&names, "deploys", "actor_id", "TEXT"), Some("ALTER TABLE deploys ADD COLUMN actor_id TEXT".to_string()));
    let names = vec![Some("actor_id".to_string())];
    assert_eq!(add_column_plan(&names, "deploys", "actor_id", "TEXT"), None);
    assert_eq!(
        migration_failure(7, "x", "boom"),
        "migration 7 (x) failed: boom"
    );
    assert_eq!(MigrateError::Setup("disk I/O error".to_string()).message(), "disk I/O error");
}

fn ok() -> MigrationOutcome {
    MigrationOutcome::Unit(Ok(()))
}

fn is_batch(a: &MigrationAction, sql: &str) -> bool {
    matches!(a, MigrationAction::Batch(s) if s == sql)
}

fn is_record(a: &MigrationAction, version: u32, name: &str) -> bool {
    matches!(a, MigrationAction::ExecuteVersion(s, v, n) if s == RECORD_VERSION && *v == version && n == name)
}

#[test]
fn machine_fresh_database_statements() {
    let (mut m, a) = MigrationRun::start();
    assert!(is_batch(&a, SCHEMA_VERSION_TABLE));
    let a = m.step(ok());
    assert!(matches!(&a, MigrationAction::QueryVersion(s) if s == VERSION_QUERY));
    let a = m.step(MigrationOutcome::Version(Some(0)));
    assert!(is_batch(&a, "BEGIN"));
    let a = m.step(ok());
    assert!(is_batch(&a, INITIAL_SCHEMA));
    let a = m.step(ok());
    assert!(is_record(&a, 1, "initial_schema"));
    let a = m.step(ok());
    assert!(is_batch(&a, "COMMIT"));
    let a = m.step(ok());
    assert!(is_batch(&a, "BEGIN"));
    let a = m.step(ok());
    assert!(matches!(&a, MigrationAction::QueryColumns(s) if s == "PRAGMA table_info(deploys)"));
    let a = m.step(MigrationOutcome::Columns(Ok(vec![Some("id".to_string()), None])));
    assert!(matches!(&a, MigrationAction::Execute(s) if s == "ALTER TABLE deploys ADD COLUMN actor_id TEXT"));
    let a = m.step(ok());
    assert!(is_record(&a, 2, "deploys_actor_id"));
    let a = m.step(ok());
    assert!(is_batch(&a, "COMMIT"));
    let a = m.step(ok());
    assert!(matches!(&a, MigrationAction::Finish(Ok(vs)) if vs == &vec![1, 2]));
}

#[test]
fn machine_setup_failure() {
    let (mut m, _) = MigrationRun::start();
    let a = m.step(MigrationOutcome::Unit(Err("disk full".to_string())));
    assert!(matches!(&a, MigrationAction::Finish(Err(MigrateError::Setup(e))) if e == "disk full"));
}

#[test]
fn machine_up_to_date() {
    let (mut m, _) = MigrationRun::start();
    m.step(ok());
    let a = m.step(MigrationOutcome::Version(Some(2)));
    assert!(matches!(&a, MigrationAction::Finish(Ok(vs)) if vs.is_empty()));
}

#[test]
fn machine_unreadable_version_counts_as_none() {
    let (mut m, _) = MigrationRun::start();
    m.step(ok());
    let a = m.step(MigrationOutcome::Version(None));
    assert!(is_batch(&a, "BEGIN"));
    let a = m.step(ok());
    assert!(is_batch(&a, INITIAL_SCHEMA));
}

#[test]
fn machine_existing_column_is_not_added() {
    let (mut m, _) = MigrationRun::start();
    m.step(ok());
    m.step(MigrationOutcome::Version(Some(1)));
    let a = m.step(ok());
    assert!(matches!(&a, MigrationAction::QueryColumns(_)));
    let a = m.step(MigrationOutcome::Columns(Ok(vec![Some("actor_id".to_string())])));
    assert!(is_record(&a, 2, "deploys_actor_id"));
}

#[test]
fn machine_failed_body_rolls_back() {
    let (mut m, _) = MigrationRun::start();
    m.step(ok());
    m.step(MigrationOutcome::Version(Some(1)));
    m.step(ok());
    m.step(MigrationOutcome::Columns(Ok(vec![])));
    let a = m.step(MigrationOutcome::Unit(Err("locked".to_string())));
    assert!(is_batch(&a, "ROLLBACK"));
    let a = m.step(MigrationOutcome::Unit(Err("no transaction".to_string())));
    match a {
        MigrationAction::Finish(Err(MigrateError::Failed { version, name, cause, applied })) => {
            assert_eq!(version, 2);
            assert_eq!(name, "deploys_actor_id");
            assert_eq!(cause, "locked");
            assert!(applied.is_empty());
        }
        _ => panic!("expected a failure"),
    }
}

#[test]
fn machine_unreadable_columns_roll_back() {
    let (mut m, _) = MigrationRun::start();
    m.step(ok());
    m.step(MigrationOutcome::Version(Some(1)));
    m.step(ok());
    let a = m.step(MigrationOutcome::Columns(Err("no such table".to_string())));
    assert!(is_batch(&a, "ROLLBACK"));
    let a = m.step(ok());
    assert!(matches!(&a, MigrationAction::Finish(Err(MigrateError::Failed { version: 2, cause, .. })) if cause == "no such table"));
}

#[test]
fn machine_commit_failure_keeps_earlier_versions() {
    let (mut m, _) = MigrationRun::start();
    m.step(ok());
    m.step(MigrationOutcome::Version(Some(0)));
    for _ in 0..4 {
        m.step(ok());
    }
    // version 1 is committed; version 2 fails at its COMMIT
    m.step(ok());
    m.step(MigrationOutcome::Columns(Ok(vec![Some("actor_id".to_string())])));
    let a = m.step(ok());
    assert!(is_batch(&a, "COMMIT"));
    let a = m.step(MigrationOutcome::Unit(Err("busy".to_string())));
    match a {
        MigrationAction::Finish(Err(MigrateError::Failed { version, cause, applied, .. })) => {
            assert_eq!(version, 2);
            assert_eq!(cause, "busy");
            assert_eq!(applied, vec![1]);
        }
        _ => panic!("expected a failure"),
    }
}

#[test]
fn machine_begin_failure() {
    let (mut m, _) = MigrationRun::start();
    m.step(ok());
    m.step(MigrationOutcome::Version(Some(0)));
    let a = m.step(MigrationOutcome::Unit(Err("busy".to_string())));
    assert!(matches!(&a, MigrationAction::Finish(Err(MigrateError::Failed { version: 1, applied, .. })) if applied.is_empty()));
}
