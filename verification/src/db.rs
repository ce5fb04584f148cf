//! Deploy history in SQLite: the row shown in the history list, and the
//! schema migrations with their runner. Each migration has a version and a
//! name; applied versions are recorded in `schema_version`, so a later run
//! applies only what is newer than the newest recorded version.

use vstd::prelude::*;
use crate::text::{decimal, owned, push_decimal, push_str, str_eq};
use rusqlite::Connection;

verus! {

/// An open SQLite connection.
#[verifier::external_type_specification]
#[verifier::external_body]
pub struct ExConnection(rusqlite::Connection);

/// One deploy in the history list.
#[derive(Debug, Clone)]
pub struct DeployRow {
    pub id: i64,
    pub project_path: String,
    pub env: String,
    pub started_at: String,
    pub finished_at: Option<String>,
    pub status: String,
    pub exit_code: Option<i32>,
}

/// The migrations in the order they apply. Append-only: a shipped version
/// is never renumbered or edited.
pub open spec fn spec_migrations() -> Seq<(u32, Seq<char>)> {
    seq![(1u32, "initial_schema"@), (2u32, "deploys_actor_id"@)]
}

/// The newest schema version.
pub open spec fn latest_version() -> u32 {
    2
}

/// The migrations of `ms` newer than `applied`, in order.
pub open spec fn pending(ms: Seq<(u32, Seq<char>)>, applied: u32) -> Seq<(u32, Seq<char>)>
    decreases ms.len(),
{
    if ms.len() == 0 {
        seq![]
    } else if ms[0].0 <= applied {
        pending(ms.drop_first(), applied)
    } else {
        seq![ms[0]] + pending(ms.drop_first(), applied)
    }
}

/// The versions and names of a list of migrations.
pub open spec fn migration_views(v: Seq<(u32, &'static str)>) -> Seq<(u32, Seq<char>)> {
    v.map_values(|m: (u32, &'static str)| (m.0, m.1@))
}

/// The migrations, version and name.
pub fn migrations() -> (r: Vec<(u32, &'static str)>)
    ensures
        migration_views(r@) == spec_migrations(),
{
    let mut v: Vec<(u32, &'static str)> = Vec::new();
    v.push((1, "initial_schema"));
    v.push((2, "deploys_actor_id"));
    assert(migration_views(v@) =~= spec_migrations());
    v
}

/// The migrations still to apply on a database whose newest recorded
/// version is `applied`.
pub fn pending_migrations(applied: u32) -> (r: Vec<(u32, &'static str)>)
    ensures
        migration_views(r@) == pending(spec_migrations(), applied),
{
    let all = migrations();
    let mut out: Vec<(u32, &'static str)> = Vec::new();
    let mut i: usize = 0;
    assert(migration_views(all@).skip(0) =~= migration_views(all@));
    while i < all.len()
        invariant
            i <= all@.len(),
            migration_views(all@) == spec_migrations(),
            pending(spec_migrations(), applied)
                == migration_views(out@) + pending(migration_views(all@).skip(i as int), applied),
        decreases all.len() - i,
    {
        let ghost rest = migration_views(all@).skip(i as int);
        assert(rest.drop_first() =~= migration_views(all@).skip(i + 1));
        assert(rest[0] == (all@[i as int].0, all@[i as int].1@));
        let m = all[i];
        if m.0 > applied {
            out.push(m);
            assert(migration_views(out@) =~= migration_views(out@.drop_last()).push(rest[0]));
            assert(migration_views(out@.drop_last()) + seq![rest[0]] + pending(rest.drop_first(), applied)
                =~= migration_views(out@) + pending(rest.drop_first(), applied));
        }
        i += 1;
    }
    assert(migration_views(all@).skip(i as int) =~= Seq::<(u32, Seq<char>)>::empty());
    assert(migration_views(out@) + Seq::<(u32, Seq<char>)>::empty() =~= migration_views(out@));
    out
}

/// A database at the newest version has nothing left to apply.
pub proof fn law_nothing_pending_at_latest()
    ensures
        pending(spec_migrations(), latest_version()) == Seq::<(u32, Seq<char>)>::empty(),
{
    reveal_with_fuel(pending, 3);
    assert(spec_migrations().drop_first().drop_first() =~= Seq::<(u32, Seq<char>)>::empty());
}

/// A fresh database gets every migration, in order.
pub proof fn law_fresh_gets_all()
    ensures
        pending(spec_migrations(), 0) == spec_migrations(),
{
    reveal_with_fuel(pending, 3);
    assert(spec_migrations().drop_first().drop_first() =~= Seq::<(u32, Seq<char>)>::empty());
    assert(spec_migrations().drop_first() =~= seq![(2u32, "deploys_actor_id"@)]);
    assert(seq![(1u32, "initial_schema"@)] + seq![(2u32, "deploys_actor_id"@)] =~= spec_migrations());
}

/// Whatever version a database had, what is pending brings it exactly to
/// the newest version: every pending version is newer than it, and the
/// last one is the newest.
pub proof fn law_pending_reaches_latest(applied: u32)
    requires
        applied < latest_version(),
    ensures
        pending(spec_migrations(), applied).len() > 0,
        pending(spec_migrations(), applied).last().0 == latest_version(),
        forall|i: int| 0 <= i < pending(spec_migrations(), applied).len()
            ==> #[trigger] pending(spec_migrations(), applied)[i].0 > applied,
{
    reveal_with_fuel(pending, 3);
    let ms = spec_migrations();
    assert(ms.drop_first().drop_first() =~= Seq::<(u32, Seq<char>)>::empty());
    assert(ms.drop_first() =~= seq![(2u32, "deploys_actor_id"@)]);
    if applied == 0 {
        assert(seq![ms[0]] + seq![(2u32, "deploys_actor_id"@)] =~= ms);
    } else {
        assert(seq![(2u32, "deploys_actor_id"@)] + Seq::<(u32, Seq<char>)>::empty()
            =~= seq![(2u32, "deploys_actor_id"@)]);
    }
}

/// The statement that lists the columns of a table.
pub open spec fn spec_table_info_sql(table: Seq<char>) -> Seq<char> {
    "PRAGMA table_info("@ + table + ")"@
}

/// The statement that adds a column to a table.
pub open spec fn spec_add_column_sql(table: Seq<char>, column: Seq<char>, type_decl: Seq<char>) -> Seq<char> {
    "ALTER TABLE "@ + table + " ADD COLUMN "@ + column + " "@ + type_decl
}

/// `PRAGMA table_info(<table>)`.
pub fn table_info_sql(table: &str) -> (r: String)
    ensures
        r@ == spec_table_info_sql(table@),
{
    let mut s = owned("PRAGMA table_info(");
    push_str(&mut s, table);
    push_str(&mut s, ")");
    s
}

/// `ALTER TABLE <table> ADD COLUMN <column> <type_decl>`.
pub fn add_column_sql(table: &str, column: &str, type_decl: &str) -> (r: String)
    ensures
        r@ == spec_add_column_sql(table@, column@, type_decl@),
{
    let mut s = owned("ALTER TABLE ");
    push_str(&mut s, table);
    push_str(&mut s, " ADD COLUMN ");
    push_str(&mut s, column);
    push_str(&mut s, " ");
    push_str(&mut s, type_decl);
    s
}

/// The column names read back from `PRAGMA table_info`, where a row whose
/// name could not be read is `None`.
pub open spec fn has_column(names: Seq<Option<String>>, column: Seq<char>) -> bool {
    exists|i: int| 0 <= i < names.len() && names_column(#[trigger] names[i], column)
}

/// A readable column name equal to `column`.
pub open spec fn names_column(o: Option<String>, column: Seq<char>) -> bool {
    match o {
        Some(n) => n@ == column,
        None => false,
    }
}

/// Whether one of the readable column names is `column`.
pub fn column_listed(names: &Vec<Option<String>>, column: &str) -> (b: bool)
    ensures
        b == has_column(names@, column@),
{
    let mut i: usize = 0;
    while i < names.len()
        invariant
            i <= names@.len(),
            forall|j: int| 0 <= j < i ==> !names_column(#[trigger] names@[j], column@),
        decreases names.len() - i,
    {
        match &names[i] {
            Some(n) => {
                if str_eq(n.as_str(), column) {
                    assert(names_column(names@[i as int], column@));
                    return true;
                }
            },
            None => {},
        }
        i += 1;
    }
    false
}

/// Runs a batch of SQL statements with `Connection::execute_batch`, the
/// error as its `Display` text; what the database does is not stated.
#[verifier::external_body]
fn exec_batch(conn: &Connection, sql: &str) -> (r: Result<(), String>) {
    conn.execute_batch(sql).map_err(|e| e.to_string())
}

/// Runs one statement without parameters with `Connection::execute`.
#[verifier::external_body]
fn exec_statement(conn: &Connection, sql: &str) -> (r: Result<(), String>) {
    conn.execute(sql, []).map(|_| ()).map_err(|e| e.to_string())
}

/// Runs one statement with a version and a name as its two parameters
/// with `Connection::execute`.
#[verifier::external_body]
fn exec_with_version(conn: &Connection, sql: &str, version: u32, name: &str) -> (r: Result<(), String>) {
    conn.execute(sql, (version, name)).map(|_| ()).map_err(|e| e.to_string())
}

/// Reads the first column of the first row of a query as a `u32` with
/// `Connection::query_row`; `None` when that fails.
#[verifier::external_body]
fn query_u32(conn: &Connection, sql: &str) -> (r: Option<u32>) {
    conn.query_row(sql, [], |row| row.get(0)).ok()
}

/// Reads the second column of every row of a query as text, with
/// `Connection::prepare` and `Statement::query_map`; a row whose value
/// cannot be read as text is `None`.
#[verifier::external_body]
fn query_names(conn: &Connection, sql: &str) -> (r: Result<Vec<Option<String>>, String>) {
    let mut stmt = conn.prepare(sql).map_err(|e| e.to_string())?;
    let rows = stmt.query_map([], |row| row.get::<_, String>(1)).map_err(|e| e.to_string())?;
    Ok(rows.map(|r| r.ok()).collect())
}

/// The statement that adds the column, given the column names read back
/// from `PRAGMA table_info`: none when one of them is the column already.
pub fn add_column_plan(names: &Vec<Option<String>>, table: &str, column: &str, type_decl: &str) -> (r: Option<String>)
    ensures
        r is Some <==> !has_column(names@, column@),
        r matches Some(s) ==> s@ == spec_add_column_sql(table@, column@, type_decl@),
{
    if column_listed(names, column) {
        None
    } else {
        Some(add_column_sql(table, column, type_decl))
    }
}

/// The first schema: the deploys table and its index. Everything is
/// `IF NOT EXISTS`, so databases made before the runner existed are kept.
pub const INITIAL_SCHEMA: &'static str = "
        CREATE TABLE IF NOT EXISTS deploys (
            id INTEGER PRIMARY KEY AUTOINCREMENT,
            project_path TEXT NOT NULL,
            env TEXT NOT NULL,
            started_at TEXT NOT NULL,
            finished_at TEXT,
            status TEXT NOT NULL,
            exit_code INTEGER,
            log TEXT NOT NULL DEFAULT ''
        );
        CREATE INDEX IF NOT EXISTS deploys_project_env
            ON deploys(project_path, env, started_at DESC);
        ";

/// The table that records applied versions.
pub const SCHEMA_VERSION_TABLE: &'static str = "CREATE TABLE IF NOT EXISTS schema_version (
            version INTEGER PRIMARY KEY,
            name TEXT NOT NULL,
            applied_at TEXT NOT NULL DEFAULT (datetime('now'))
         );";

/// The versions of a list of migrations.
pub open spec fn versions(ms: Seq<(u32, Seq<char>)>) -> Seq<u32> {
    ms.map_values(|m: (u32, Seq<char>)| m.0)
}

/// The message of a migration that failed: which one, then the cause.
pub open spec fn spec_migration_failure(version: u32, name: Seq<char>, cause: Seq<char>) -> Seq<char> {
    "migration "@ + decimal(version as nat) + " ("@ + name + ") failed: "@ + cause
}

/// `migration <version> (<name>) failed: <cause>`.
pub fn migration_failure(version: u32, name: &str, cause: &str) -> (r: String)
    ensures
        r@ == spec_migration_failure(version, name@, cause@),
{
    let mut m = owned("migration ");
    push_decimal(&mut m, version as u64);
    push_str(&mut m, " (");
    push_str(&mut m, name);
    push_str(&mut m, ") failed: ");
    push_str(&mut m, cause);
    m
}

/// Why bringing the schema up to date failed.
#[derive(Debug)]
pub enum MigrateError {
    /// The table of applied versions could not be made; the database's text.
    Setup(String),
    /// A migration failed (rolled back when its body failed); `applied` are
    /// the versions committed before it, and no later migration was tried.
    Failed { version: u32, name: String, cause: String, applied: Vec<u32> },
}

impl MigrateError {
    /// The error as text: the database's text for the setup, else
    /// [`migration_failure`].
    pub fn message(&self) -> (r: String)
        ensures
            r@ == match self {
                MigrateError::Setup(e) => e@,
                MigrateError::Failed { version, name, cause, .. } => spec_migration_failure(*version, name@, cause@),
            },
    {
        match self {
            MigrateError::Setup(e) => e.clone(),
            MigrateError::Failed { version, name, cause, .. } => migration_failure(*version, name.as_str(), cause.as_str()),
        }
    }
}

/// The query for the newest recorded version, 0 when none is recorded.
pub const VERSION_QUERY: &'static str = "SELECT COALESCE(MAX(version), 0) FROM schema_version";

/// The statement that records an applied migration, with its version and
/// its name as the two parameters.
pub const RECORD_VERSION: &'static str = "INSERT INTO schema_version (version, name) VALUES (?1, ?2)";

/// The mathematical value of a [`MigrateError`].
pub enum ErrorView {
    Setup(Seq<char>),
    Failed { version: u32, name: Seq<char>, cause: Seq<char>, applied: Seq<u32> },
}

impl View for MigrateError {
    type V = ErrorView;

    open spec fn view(&self) -> ErrorView {
        match self {
            MigrateError::Setup(e) => ErrorView::Setup(e@),
            MigrateError::Failed { version, name, cause, applied } => ErrorView::Failed {
                version: *version,
                name: name@,
                cause: cause@,
                applied: applied@,
            },
        }
    }
}

/// The mathematical value of the result of a run.
pub open spec fn result_view(r: Result<Vec<u32>, MigrateError>) -> Result<Seq<u32>, ErrorView> {
    match r {
        Ok(vs) => Ok(vs@),
        Err(e) => Err(e@),
    }
}

/// Where a run of the migrations stands. The index is that of the migration
/// in the list of pending ones.
pub enum Phase {
    /// The table of applied versions is being made.
    Setup,
    /// The newest recorded version is being read.
    ReadVersion,
    /// The migration's transaction is being opened.
    Begin(usize),
    /// The columns of `deploys` are being read for the migration's body.
    Columns(usize),
    /// The migration's body is running.
    Body(usize),
    /// The migration's version is being recorded.
    Record(usize),
    /// The migration's transaction is being committed.
    Commit(usize),
    /// The migration failed with this cause and is being rolled back.
    Rollback(usize, String),
    /// The run is over.
    Done,
}

/// What the database answered to the last action.
pub enum MigrationOutcome {
    /// A batch or a statement ran, or failed with the database's text.
    Unit(Result<(), String>),
    /// The newest recorded version; `None` when it could not be read.
    Version(Option<u32>),
    /// The column names of a table (`None` for one that could not be read
    /// as text), or the database's text.
    Columns(Result<Vec<Option<String>>, String>),
}

/// What the runner asks of the database next.
pub enum MigrationAction {
    /// Run a batch of statements.
    Batch(String),
    /// Run one statement without parameters.
    Execute(String),
    /// Run one statement with a version and a name as its parameters.
    ExecuteVersion(String, u32, String),
    /// Read a version with a query.
    QueryVersion(String),
    /// Read the column names of a table with a query.
    QueryColumns(String),
    /// Nothing more: the run is over with this result.
    Finish(Result<Vec<u32>, MigrateError>),
}

/// The mathematical value of a [`MigrationAction`].
pub enum ActionView {
    Batch(Seq<char>),
    Execute(Seq<char>),
    ExecuteVersion(Seq<char>, u32, Seq<char>),
    QueryVersion(Seq<char>),
    QueryColumns(Seq<char>),
    Finish(Result<Seq<u32>, ErrorView>),
}

impl View for MigrationAction {
    type V = ActionView;

    open spec fn view(&self) -> ActionView {
        match self {
            MigrationAction::Batch(s) => ActionView::Batch(s@),
            MigrationAction::Execute(s) => ActionView::Execute(s@),
            MigrationAction::ExecuteVersion(s, v, n) => ActionView::ExecuteVersion(s@, *v, n@),
            MigrationAction::QueryVersion(s) => ActionView::QueryVersion(s@),
            MigrationAction::QueryColumns(s) => ActionView::QueryColumns(s@),
            MigrationAction::Finish(r) => ActionView::Finish(result_view(*r)),
        }
    }
}

/// A run of the migrations as a state machine: each call of
/// [`MigrationRun::step`] takes what the database answered to the last
/// action and gives the next one.
pub struct MigrationRun {
    phase: Phase,
    base: u32,
    plan: Vec<(u32, &'static str)>,
    applied: Vec<u32>,
}

/// The mathematical value of a [`MigrationRun`]: where it stands, the
/// newest version recorded before the run, the migrations pending on it and
/// the versions committed so far.
pub struct RunView {
    pub phase: Phase,
    pub base: u32,
    pub plan: Seq<(u32, Seq<char>)>,
    pub applied: Seq<u32>,
}

impl View for MigrationRun {
    type V = RunView;

    closed spec fn view(&self) -> RunView {
        RunView { phase: self.phase, base: self.base, plan: migration_views(self.plan@), applied: self.applied@ }
    }
}

/// A run that has not started.
pub open spec fn initial_run() -> RunView {
    RunView { phase: Phase::Setup, base: 0, plan: pending(spec_migrations(), 0), applied: seq![] }
}

/// Whether `o` is the kind of answer that the phase waits for.
pub open spec fn fits(p: Phase, o: MigrationOutcome) -> bool {
    match p {
        Phase::ReadVersion => o is Version,
        Phase::Columns(_) => o is Columns,
        Phase::Done => false,
        _ => o is Unit,
    }
}

/// Whether the phase waits for the answer to action `a`.
pub open spec fn awaits(p: Phase, a: ActionView) -> bool {
    match a {
        ActionView::Finish(_) => p is Done,
        ActionView::QueryVersion(_) => p is ReadVersion,
        ActionView::QueryColumns(_) => p is Columns,
        _ => !(p is Done || p is ReadVersion || p is Columns),
    }
}

/// The answer of a batch or a statement: `None` on success, else the cause.
pub open spec fn unit_error(o: MigrationOutcome) -> Option<Seq<char>> {
    match o {
        MigrationOutcome::Unit(Ok(())) => None,
        MigrationOutcome::Unit(Err(e)) => Some(e@),
        _ => Some(seq![]),
    }
}

/// The failure of the `i`th pending migration with the given cause.
pub open spec fn failure_of(s: RunView, i: int, cause: Seq<char>) -> ActionView {
    ActionView::Finish(Err(ErrorView::Failed {
        version: s.plan[i].0,
        name: s.plan[i].1,
        cause: cause,
        applied: s.applied,
    }))
}

/// Recording the version and name of the `i`th pending migration.
pub open spec fn record_of(s: RunView, i: int) -> ActionView {
    ActionView::ExecuteVersion(RECORD_VERSION@, s.plan[i].0, s.plan[i].1)
}

/// The same run in another phase.
pub open spec fn at(s: RunView, p: Phase) -> RunView {
    RunView { phase: p, ..s }
}

/// One step of the protocol: given where the run stands and what the
/// database answered, where it goes and what it asks next. First the table
/// of applied versions; then the newest recorded version (0 when it cannot be
/// read); then, for each pending migration in order, `BEGIN`, its body
/// (the first schema for version 1; for the other, the column list of
/// `deploys` and, unless `actor_id` is among them, the statement that adds
/// it), the record of its version and name, and `COMMIT`. A failed body is
/// rolled back; any failure ends the run with an error naming the migration
/// and the versions committed before it. Answers of the wrong kind end the
/// run too.
pub open spec fn spec_step(s: RunView, o: MigrationOutcome) -> (RunView, ActionView) {
    let done = at(s, Phase::Done);
    if !fits(s.phase, o) {
        (done, ActionView::Finish(Err(ErrorView::Setup(seq![]))))
    } else {
        match s.phase {
            Phase::Setup => match unit_error(o) {
                None => (at(s, Phase::ReadVersion), ActionView::QueryVersion(VERSION_QUERY@)),
                Some(e) => (done, ActionView::Finish(Err(ErrorView::Setup(e)))),
            },
            Phase::ReadVersion => {
                let v = match o {
                    MigrationOutcome::Version(Some(v)) => v,
                    _ => 0u32,
                };
                let p = pending(spec_migrations(), v);
                if p.len() == 0 {
                    (RunView { phase: Phase::Done, base: v, plan: p, applied: seq![] }, ActionView::Finish(Ok(seq![])))
                } else {
                    (RunView { phase: Phase::Begin(0), base: v, plan: p, applied: seq![] }, ActionView::Batch("BEGIN"@))
                }
            },
            Phase::Begin(i) => match unit_error(o) {
                None => if s.plan[i as int].0 == 1 {
                    (at(s, Phase::Body(i)), ActionView::Batch(INITIAL_SCHEMA@))
                } else {
                    (at(s, Phase::Columns(i)), ActionView::QueryColumns(spec_table_info_sql("deploys"@)))
                },
                Some(e) => (done, failure_of(s, i as int, e)),
            },
            Phase::Columns(i) => match o {
                MigrationOutcome::Columns(Ok(names)) => if has_column(names@, "actor_id"@) {
                    (at(s, Phase::Record(i)), record_of(s, i as int))
                } else {
                    (at(s, Phase::Body(i)), ActionView::Execute(spec_add_column_sql("deploys"@, "actor_id"@, "TEXT"@)))
                },
                MigrationOutcome::Columns(Err(e)) => (at(s, Phase::Rollback(i, e)), ActionView::Batch("ROLLBACK"@)),
                _ => (done, ActionView::Finish(Err(ErrorView::Setup(seq![])))),
            },
            Phase::Body(i) => match o {
                MigrationOutcome::Unit(Ok(())) => (at(s, Phase::Record(i)), record_of(s, i as int)),
                MigrationOutcome::Unit(Err(e)) => (at(s, Phase::Rollback(i, e)), ActionView::Batch("ROLLBACK"@)),
                _ => (done, ActionView::Finish(Err(ErrorView::Setup(seq![])))),
            },
            Phase::Record(i) => match unit_error(o) {
                None => (at(s, Phase::Commit(i)), ActionView::Batch("COMMIT"@)),
                Some(e) => (done, failure_of(s, i as int, e)),
            },
            Phase::Commit(i) => match unit_error(o) {
                None => {
                    let a = s.applied.push(s.plan[i as int].0);
                    if i + 1 < s.plan.len() {
                        (RunView { phase: Phase::Begin((i + 1) as usize), applied: a, ..s }, ActionView::Batch("BEGIN"@))
                    } else {
                        (RunView { phase: Phase::Done, applied: a, ..s }, ActionView::Finish(Ok(a)))
                    }
                },
                Some(e) => (done, failure_of(s, i as int, e)),
            },
            Phase::Rollback(i, e) => (done, failure_of(s, i as int, e@)),
            Phase::Done => (done, ActionView::Finish(Err(ErrorView::Setup(seq![])))),
        }
    }
}

/// Where a run stands and what it asks after the database gave the answers
/// `os`, one per action, from the start.
pub open spec fn replay(os: Seq<MigrationOutcome>) -> (RunView, ActionView)
    decreases os.len(),
{
    if os.len() == 0 {
        (initial_run(), ActionView::Batch(SCHEMA_VERSION_TABLE@))
    } else {
        spec_step(replay(os.drop_last()).0, os.last())
    }
}

/// The index of the migration a phase works on, if any.
pub open spec fn phase_index(p: Phase) -> Option<int> {
    match p {
        Phase::Begin(i) => Some(i as int),
        Phase::Columns(i) => Some(i as int),
        Phase::Body(i) => Some(i as int),
        Phase::Record(i) => Some(i as int),
        Phase::Commit(i) => Some(i as int),
        Phase::Rollback(i, _) => Some(i as int),
        _ => None,
    }
}

/// The invariant of a run: the plan is what is pending on the version it
/// started from, and while a migration is under way, the versions before it
/// are those committed.
pub open spec fn run_wf(s: RunView) -> bool {
    &&& s.plan == pending(spec_migrations(), s.base)
    &&& match phase_index(s.phase) {
        Some(i) => 0 <= i < s.plan.len() && s.applied == versions(s.plan).take(i),
        None => s.phase is Done || s.applied == Seq::<u32>::empty(),
    }
}

/// What a finished run returns: on success the versions of the whole plan,
/// on a failed migration its version and name and the versions before it.
pub open spec fn finish_sound(s: RunView, a: ActionView) -> bool {
    match a {
        ActionView::Finish(Ok(vs)) => vs == versions(s.plan),
        ActionView::Finish(Err(ErrorView::Failed { version, name, applied, .. })) => exists|i: int|
            0 <= i < s.plan.len() && #[trigger] s.plan[i] == (version, name) && applied == versions(s.plan).take(i),
        _ => true,
    }
}

/// A bound on the steps left.
pub open spec fn steps_left(s: RunView) -> int {
    match s.phase {
        Phase::Setup => 100,
        Phase::ReadVersion => 99,
        Phase::Begin(i) => (s.plan.len() - i) * 10 + 5,
        Phase::Columns(i) => (s.plan.len() - i) * 10 + 4,
        Phase::Body(i) => (s.plan.len() - i) * 10 + 3,
        Phase::Record(i) => (s.plan.len() - i) * 10 + 2,
        Phase::Commit(i) => (s.plan.len() - i) * 10 + 1,
        Phase::Rollback(i, _) => (s.plan.len() - i) * 10,
        Phase::Done => 0,
    }
}

/// There are never more migrations pending than there are.
pub proof fn lemma_pending_len(ms: Seq<(u32, Seq<char>)>, applied: u32)
    ensures
        pending(ms, applied).len() <= ms.len(),
    decreases ms.len(),
{
    if ms.len() > 0 {
        lemma_pending_len(ms.drop_first(), applied);
    }
}

/// The step that reads the newest recorded version.
proof fn lemma_read_version(s: RunView, o: MigrationOutcome)
    requires
        run_wf(s),
        s.phase is ReadVersion,
        o is Version,
    ensures
        run_wf(spec_step(s, o).0),
        0 <= steps_left(spec_step(s, o).0) < steps_left(s),
        finish_sound(spec_step(s, o).0, spec_step(s, o).1),
{
    let n = spec_step(s, o).0;
    let v: u32 = match o {
        MigrationOutcome::Version(Some(x)) => x,
        _ => 0u32,
    };
    lemma_pending_len(spec_migrations(), v);
    assert(spec_migrations().len() == 2);
    assert(n.plan == pending(spec_migrations(), v));
    assert(versions(n.plan).take(0) =~= Seq::<u32>::empty());
    assert(n.plan.len() == 0 ==> versions(n.plan) =~= Seq::<u32>::empty());
}

/// A failure of a migration under way ends the run soundly.
proof fn lemma_failure_sound(s: RunView, i: int, cause: Seq<char>)
    requires
        run_wf(s),
        phase_index(s.phase) == Some(i),
    ensures
        finish_sound(at(s, Phase::Done), failure_of(s, i, cause)),
{
    let p = s.plan[i];
    assert(p == (p.0, p.1));
    assert(0 <= i < at(s, Phase::Done).plan.len() && at(s, Phase::Done).plan[i] == (p.0, p.1)
        && s.applied == versions(at(s, Phase::Done).plan).take(i));
}

/// A step keeps the invariant, waits for the answer to what it asks, comes
/// closer to the end, and ends only with what [`finish_sound`] allows.
pub proof fn lemma_step(s: RunView, o: MigrationOutcome)
    requires
        run_wf(s),
        fits(s.phase, o),
    ensures
        run_wf(spec_step(s, o).0),
        awaits(spec_step(s, o).0.phase, spec_step(s, o).1),
        0 <= steps_left(spec_step(s, o).0) < steps_left(s),
        finish_sound(spec_step(s, o).0, spec_step(s, o).1),
{
    let cause = match unit_error(o) {
        Some(e) => e,
        None => seq![],
    };
    lemma_pending_len(spec_migrations(), s.base);
    match s.phase {
        Phase::ReadVersion => {
            lemma_read_version(s, o);
        },
        Phase::Commit(i) => {
            if unit_error(o) is None {
                assert(versions(s.plan).take(i + 1) =~= s.applied.push(s.plan[i as int].0));
                if i + 1 >= s.plan.len() {
                    assert(versions(s.plan).take(i + 1) =~= versions(s.plan));
                }
            } else {
                lemma_failure_sound(s, i as int, cause);
            }
        },
        Phase::Begin(i) => {
            lemma_failure_sound(s, i as int, cause);
        },
        Phase::Record(i) => {
            lemma_failure_sound(s, i as int, cause);
        },
        Phase::Rollback(i, e) => {
            lemma_failure_sound(s, i as int, e@);
        },
        _ => {},
    }
}

/// The first action of every run: make the table of applied versions.
pub proof fn law_first_action()
    ensures
        replay(seq![]).1 == ActionView::Batch(SCHEMA_VERSION_TABLE@),
        replay(seq![]).0 == initial_run(),
{
}

/// The run ends with the setup error exactly when the statement that makes
/// the table of applied versions fails, and then with its text.
pub proof fn law_setup_error_only_first(s: RunView, o: MigrationOutcome)
    requires
        run_wf(s),
        fits(s.phase, o),
    ensures
        (spec_step(s, o).1 matches ActionView::Finish(Err(ErrorView::Setup(_))))
            <==> (s.phase is Setup && o matches MigrationOutcome::Unit(Err(_))),
        s.phase is Setup ==> (o matches MigrationOutcome::Unit(Err(e))
            ==> spec_step(s, o).1 == ActionView::Finish(Err(ErrorView::Setup(e@)))),
        !(spec_step(s, o).0.phase is Setup),
{
}

/// A migration is committed only after its version and name were recorded
/// inside its transaction.
pub proof fn law_commit_after_record(s: RunView, o: MigrationOutcome)
    requires
        run_wf(s),
        fits(s.phase, o),
        spec_step(s, o).0.phase is Commit,
    ensures
        s.phase is Record,
        s.phase->Record_0 == spec_step(s, o).0.phase->Commit_0,
        o matches MigrationOutcome::Unit(Ok(_)),
        spec_step(s, o).1 == ActionView::Batch("COMMIT"@),
{
    if s.phase is Record {
        assert(unit_error(o) is None);
        assert(o matches MigrationOutcome::Unit(Ok(_)));
    }
}

/// A migration whose body fails is rolled back: the next action is
/// `ROLLBACK`, and whatever it answers, the run ends with the error naming
/// the migration, the body's cause and the versions committed before it.
pub proof fn law_failed_body_rolls_back(s: RunView, e: String, o2: MigrationOutcome)
    requires
        run_wf(s),
        s.phase is Body || s.phase is Columns,
        o2 is Unit,
    ensures
        ({
            let i = phase_index(s.phase)->0;
            let o1 = if s.phase is Body { MigrationOutcome::Unit(Err(e)) } else { MigrationOutcome::Columns(Err(e)) };
            &&& spec_step(s, o1).1 == ActionView::Batch("ROLLBACK"@)
            &&& spec_step(spec_step(s, o1).0, o2).1 == failure_of(s, i, e@)
            &&& spec_step(spec_step(s, o1).0, o2).0.phase is Done
        }),
{
}

/// A finished run returns, on success, the versions of every migration
/// pending on the version it started from, in order; on a failed migration,
/// that migration's version and name, and the versions committed before it.
pub proof fn law_finish(s: RunView, o: MigrationOutcome)
    requires
        run_wf(s),
        fits(s.phase, o),
    ensures
        spec_step(s, o).1 matches ActionView::Finish(Ok(vs))
            ==> vs == versions(pending(spec_migrations(), spec_step(s, o).0.base)),
        spec_step(s, o).1 matches ActionView::Finish(Err(ErrorView::Failed { version, name, applied, .. }))
            ==> exists|i: int| 0 <= i < pending(spec_migrations(), spec_step(s, o).0.base).len()
                && #[trigger] pending(spec_migrations(), spec_step(s, o).0.base)[i] == (version, name)
                && applied == versions(pending(spec_migrations(), spec_step(s, o).0.base)).take(i),
{
    lemma_step(s, o);
}

impl MigrationRun {
    /// The invariant of the run.
    pub open spec fn wf(&self) -> bool {
        run_wf(self@)
    }

    /// A run that has not started, and its first action: make the table
    /// of applied versions.
    pub fn start() -> (r: (MigrationRun, MigrationAction))
        ensures
            r.0@ == initial_run(),
            r.1@ == ActionView::Batch(SCHEMA_VERSION_TABLE@),
            r.0.wf(),
    {
        let plan = pending_migrations(0);
        (MigrationRun { phase: Phase::Setup, base: 0, plan, applied: Vec::new() }, MigrationAction::Batch(owned(SCHEMA_VERSION_TABLE)))
    }

    /// The error of the `i`th pending migration with the given cause.
    fn failure(&self, i: usize, cause: String) -> (r: MigrationAction)
        requires
            i < self.plan@.len(),
        ensures
            r@ == failure_of(self@, i as int, cause@),
    {
        let (version, name) = self.plan[i];
        let applied = self.applied.clone();
        assert(applied@ =~= self.applied@);
        MigrationAction::Finish(Err(MigrateError::Failed { version, name: owned(name), cause, applied }))
    }

    /// The record of the `i`th pending migration's version and name.
    fn record(&self, i: usize) -> (r: MigrationAction)
        requires
            i < self.plan@.len(),
        ensures
            r@ == record_of(self@, i as int),
    {
        let (version, name) = self.plan[i];
        MigrationAction::ExecuteVersion(owned(RECORD_VERSION), version, owned(name))
    }

    /// Takes what the database answered to the last action and gives the
    /// next one, as [`spec_step`] says.
    pub fn step(&mut self, o: MigrationOutcome) -> (a: MigrationAction)
        requires
            old(self).wf(),
            fits(old(self)@.phase, o),
        ensures
            (final(self)@, a@) == spec_step(old(self)@, o),
            final(self).wf(),
    {
        proof {
            lemma_step(self@, o);
        }
        let ghost s = self@;
        let mut phase = Phase::Done;
        std::mem::swap(&mut phase, &mut self.phase);
        assert(self@ == at(s, Phase::Done));
        match phase {
            Phase::Setup => match o {
                MigrationOutcome::Unit(Ok(())) => {
                    self.phase = Phase::ReadVersion;
                    MigrationAction::QueryVersion(owned(VERSION_QUERY))
                },
                MigrationOutcome::Unit(Err(e)) => MigrationAction::Finish(Err(MigrateError::Setup(e))),
                _ => MigrationAction::Finish(Err(MigrateError::Setup(owned("")))),
            },
            Phase::ReadVersion => {
                let v: u32 = match o {
                    MigrationOutcome::Version(Some(v)) => v,
                    _ => 0,
                };
                self.base = v;
                self.plan = pending_migrations(v);
                self.applied = Vec::new();
                if self.plan.len() == 0 {
                    MigrationAction::Finish(Ok(Vec::new()))
                } else {
                    self.phase = Phase::Begin(0);
                    MigrationAction::Batch(owned("BEGIN"))
                }
            },
            Phase::Begin(i) => match o {
                MigrationOutcome::Unit(Ok(())) => {
                    if self.plan[i].0 == 1 {
                        self.phase = Phase::Body(i);
                        MigrationAction::Batch(owned(INITIAL_SCHEMA))
                    } else {
                        self.phase = Phase::Columns(i);
                        MigrationAction::QueryColumns(table_info_sql("deploys"))
                    }
                },
                MigrationOutcome::Unit(Err(e)) => self.failure(i, e),
                _ => MigrationAction::Finish(Err(MigrateError::Setup(owned("")))),
            },
            Phase::Columns(i) => match o {
                MigrationOutcome::Columns(Ok(names)) => match add_column_plan(&names, "deploys", "actor_id", "TEXT") {
                    Some(sql) => {
                        self.phase = Phase::Body(i);
                        MigrationAction::Execute(sql)
                    },
                    None => {
                        self.phase = Phase::Record(i);
                        self.record(i)
                    },
                },
                MigrationOutcome::Columns(Err(e)) => {
                    self.phase = Phase::Rollback(i, e);
                    MigrationAction::Batch(owned("ROLLBACK"))
                },
                _ => MigrationAction::Finish(Err(MigrateError::Setup(owned("")))),
            },
            Phase::Body(i) => match o {
                MigrationOutcome::Unit(Ok(())) => {
                    self.phase = Phase::Record(i);
                    self.record(i)
                },
                MigrationOutcome::Unit(Err(e)) => {
                    self.phase = Phase::Rollback(i, e);
                    MigrationAction::Batch(owned("ROLLBACK"))
                },
                _ => MigrationAction::Finish(Err(MigrateError::Setup(owned("")))),
            },
            Phase::Record(i) => match o {
                MigrationOutcome::Unit(Ok(())) => {
                    self.phase = Phase::Commit(i);
                    MigrationAction::Batch(owned("COMMIT"))
                },
                MigrationOutcome::Unit(Err(e)) => self.failure(i, e),
                _ => MigrationAction::Finish(Err(MigrateError::Setup(owned("")))),
            },
            Phase::Commit(i) => match o {
                MigrationOutcome::Unit(Ok(())) => {
                    assert(phase_index(s.phase) == Some(i as int));
                    assert(i < self.plan.len());
                    let version = self.plan[i].0;
                    self.applied.push(version);
                    if i + 1 < self.plan.len() {
                        self.phase = Phase::Begin(i + 1);
                        MigrationAction::Batch(owned("BEGIN"))
                    } else {
                        let applied = self.applied.clone();
                        assert(applied@ =~= self.applied@);
                        MigrationAction::Finish(Ok(applied))
                    }
                },
                MigrationOutcome::Unit(Err(e)) => self.failure(i, e),
                _ => MigrationAction::Finish(Err(MigrateError::Setup(owned("")))),
            },
            Phase::Rollback(i, e) => self.failure(i, e),
            Phase::Done => MigrationAction::Finish(Err(MigrateError::Setup(owned("")))),
        }
    }
}

/// Carries out one action on the database and gives its answer; `None`
/// for [`MigrationAction::Finish`], which asks nothing.
fn perform(conn: &Connection, a: &MigrationAction) -> (r: Option<MigrationOutcome>)
    ensures
        match a@ {
            ActionView::Finish(_) => r is None,
            ActionView::QueryVersion(_) => r matches Some(o) && o is Version,
            ActionView::QueryColumns(_) => r matches Some(o) && o is Columns,
            _ => r matches Some(o) && o is Unit,
        },
{
    match a {
        MigrationAction::Batch(sql) => Some(MigrationOutcome::Unit(exec_batch(conn, sql.as_str()))),
        MigrationAction::Execute(sql) => Some(MigrationOutcome::Unit(exec_statement(conn, sql.as_str()))),
        MigrationAction::ExecuteVersion(sql, v, n) => Some(MigrationOutcome::Unit(exec_with_version(conn, sql.as_str(), *v, n.as_str()))),
        MigrationAction::QueryVersion(sql) => Some(MigrationOutcome::Version(query_u32(conn, sql.as_str()))),
        MigrationAction::QueryColumns(sql) => Some(MigrationOutcome::Columns(query_names(conn, sql.as_str()))),
        MigrationAction::Finish(_) => None,
    }
}

/// Brings the database to the newest schema by running [`MigrationRun`]:
/// each action it asks is carried out on `conn` and the answer handed back,
/// until it finishes. The result is the one [`replay`] gives for the answers
/// the database gave: the table of applied versions first, then, in order,
/// every migration newer than the newest recorded version, each in its own
/// transaction; on success the versions applied, else the error of the
/// first failure. Whether each statement succeeds is up to the database.
pub fn run(conn: &Connection) -> (r: Result<Vec<u32>, MigrateError>)
    ensures
        exists|os: Seq<MigrationOutcome>| #[trigger] replay(os).1 == ActionView::Finish(result_view(r)),
        r matches Ok(vs) ==> exists|a: u32| vs@ == versions(pending(spec_migrations(), a)),
        r matches Err(MigrateError::Failed { version, name, applied, .. }) ==> exists|a: u32, i: int|
            0 <= i < pending(spec_migrations(), a).len()
                && #[trigger] pending(spec_migrations(), a)[i] == (version, name@)
                && applied@ == versions(pending(spec_migrations(), a)).take(i),
{
    let (mut m, mut action) = MigrationRun::start();
    let ghost mut os: Seq<MigrationOutcome> = seq![];
    loop
        invariant
            m.wf(),
            replay(os) == (m@, action@),
            awaits(m@.phase, action@),
            finish_sound(m@, action@),
        decreases steps_left(m@),
    {
        let o = match perform(conn, &action) {
            Some(o) => o,
            None => {
                match action {
                    MigrationAction::Finish(r) => {
                        assert(replay(os).1 == ActionView::Finish(result_view(r)));
                        return r;
                    },
                    _ => {
                        return Err(MigrateError::Setup(owned("")));
                    },
                }
            },
        };
        proof {
            lemma_step(m@, o);
            assert(os.push(o).drop_last() =~= os);
            os = os.push(o);
        }
        action = m.step(o);
    }
}

} // verus!
