use vstd::prelude::*;

use crate::error::AppError;
use crate::model::{
    delete_project_m, delete_prompt_m, delete_task_m, lists_projects, lists_prompts, lists_tasks,
    os_view, ProjRec, PromptRec, StoreModel, TaskRec,
};
use crate::models::{ProjectDto, PromptRow, TaskDto};
use crate::text::str_le;
use rusqlite::OptionalExtension;

verus! {

// The embedded store is an outside collaborator: a SQLite database reached
// through rusqlite. Everything the library knows about it is stated here,
// over names for its contents, and believed; the logic above is verified
// against these contracts.
#[verifier::external_type_specification]
#[verifier::external_body]
pub struct ExConnection(rusqlite::Connection);

#[verifier::external_type_specification]
#[verifier::external_body]
pub struct ExSqlError(rusqlite::Error);

/// The rows of the projects table of the database behind `c`.
pub uninterp spec fn projects_of(c: rusqlite::Connection) -> Map<int, ProjRec>;

/// The rows of the tasks table of the database behind `c`.
pub uninterp spec fn tasks_of(c: rusqlite::Connection) -> Map<int, TaskRec>;

/// The rows of the prompt_entries table of the database behind `c`.
pub uninterp spec fn prompts_of(c: rusqlite::Connection) -> Map<int, PromptRec>;

/// The projects table as it stood when the open transaction began; the
/// state that a rollback restores.
pub uninterp spec fn snap_projects(c: rusqlite::Connection) -> Map<int, ProjRec>;

/// The tasks table as it stood when the open transaction began.
pub uninterp spec fn snap_tasks(c: rusqlite::Connection) -> Map<int, TaskRec>;

/// The prompt_entries table as it stood when the open transaction began.
pub uninterp spec fn snap_prompts(c: rusqlite::Connection) -> Map<int, PromptRec>;

/// Whether an explicit transaction is open on `c`.
pub uninterp spec fn in_tx(c: rusqlite::Connection) -> bool;

/// Whether `c` points at a database carrying this library's schema, with
/// foreign-key enforcement switched on for the connection.
pub uninterp spec fn schema_ok(c: rusqlite::Connection) -> bool;

/// The rowid assigned by the most recent successful insert on `c`.
pub uninterp spec fn last_rowid(c: rusqlite::Connection) -> int;

/// The three tables of the store behind `c`.
pub open spec fn db(c: rusqlite::Connection) -> StoreModel {
    StoreModel { projects: projects_of(c), tasks: tasks_of(c), prompts: prompts_of(c) }
}

/// The three tables as they stood when the open transaction began.
pub open spec fn db_snap(c: rusqlite::Connection) -> StoreModel {
    StoreModel { projects: snap_projects(c), tasks: snap_tasks(c), prompts: snap_prompts(c) }
}

/// What every successful data statement leaves alone: the schema, whether
/// a transaction is open, and — inside a transaction — the rollback state.
pub open spec fn admin_kept(a: rusqlite::Connection, b: rusqlite::Connection) -> bool {
    &&& schema_ok(b) == schema_ok(a)
    &&& in_tx(b) == in_tx(a)
    &&& (in_tx(a) ==> db_snap(b) == db_snap(a))
}

/// A failed statement made SQLite roll the open transaction back on its
/// own (documented for the out-of-space, I/O, busy and out-of-memory
/// errors): the transaction is closed and the tables are back at the
/// rollback state.
pub open spec fn stmt_aborted(a: rusqlite::Connection, b: rusqlite::Connection) -> bool {
    &&& schema_ok(b) == schema_ok(a)
    &&& in_tx(a)
    &&& !in_tx(b)
    &&& db(b) == db_snap(a)
}

/// Relies on the Display impl of rusqlite::Error for the message text.
#[verifier::external_body]
pub(crate) fn db_err(e: rusqlite::Error) -> (r: AppError)
    ensures
        r is DbError,
{
    AppError::DbError(format!("{}", e))
}

/// Relies on rusqlite::Connection::open_in_memory: a fresh in-memory
/// database holds no tables, hence no rows, and no open transaction.
#[verifier::external_body]
pub(crate) fn open_in_memory_conn() -> (r: Result<rusqlite::Connection, AppError>)
    ensures
        r matches Ok(c) ==> db(c).is_empty() && !in_tx(c),
        r matches Err(e) ==> e is DbError,
{
    rusqlite::Connection::open_in_memory().map_err(db_err)
}

/// Relies on rusqlite::Connection::open: opens (creating if absent) the
/// database file at `path`. Its contents are whatever the file holds;
/// no transaction is open on a fresh connection.
#[verifier::external_body]
pub(crate) fn open_conn(path: &str) -> (r: Result<rusqlite::Connection, AppError>)
    ensures
        r matches Ok(c) ==> !in_tx(c),
        r matches Err(e) ==> e is DbError,
{
    rusqlite::Connection::open(path).map_err(db_err)
}

/// Relies on rusqlite::Connection::execute_batch running
/// `PRAGMA foreign_keys = ON;` followed by the idempotent CREATE TABLE /
/// CREATE INDEX statements of the three tables. On success the connection
/// carries the schema with foreign keys enforced; the statements create
/// objects only and change no rows, also on a populated database. The
/// claim presumes the application-owned store file of this library: a
/// foreign file with same-named tables of another shape would satisfy
/// CREATE TABLE IF NOT EXISTS without carrying this schema.
#[verifier::external_body]
pub(crate) fn install_schema(conn: &mut rusqlite::Connection) -> (r: Result<(), AppError>)
    requires
        !in_tx(*old(conn)),
    ensures
        !in_tx(*final(conn)),
        db(*final(conn)) == db(*old(conn)),
        r is Ok ==> schema_ok(*final(conn)),
        r matches Err(e) ==> e is DbError,
{
    conn.execute_batch(
        "PRAGMA foreign_keys = ON;
         CREATE TABLE IF NOT EXISTS projects (
             id          INTEGER PRIMARY KEY AUTOINCREMENT,
             name        TEXT NOT NULL,
             created_at  TEXT NOT NULL,
             updated_at  TEXT
         );
         CREATE TABLE IF NOT EXISTS tasks (
             id          INTEGER PRIMARY KEY AUTOINCREMENT,
             project_id  INTEGER NOT NULL,
             name        TEXT NOT NULL,
             description TEXT,
             created_at  TEXT NOT NULL,
             updated_at  TEXT,
             FOREIGN KEY(project_id) REFERENCES projects(id) ON DELETE CASCADE
         );
         CREATE INDEX IF NOT EXISTS idx_tasks_project_id ON tasks (project_id);
         CREATE TABLE IF NOT EXISTS prompt_entries (
             id          INTEGER PRIMARY KEY AUTOINCREMENT,
             task_id     INTEGER NOT NULL,
             title       TEXT,
             content     TEXT NOT NULL,
             tags        TEXT,
             model       TEXT,
             created_at  TEXT NOT NULL,
             updated_at  TEXT,
             FOREIGN KEY(task_id) REFERENCES tasks(id) ON DELETE CASCADE
         );
         CREATE INDEX IF NOT EXISTS idx_prompt_task_id ON prompt_entries (task_id);
         CREATE INDEX IF NOT EXISTS idx_prompt_created_at ON prompt_entries (created_at);",
    ).map_err(db_err)
}

/// Relies on chrono: the current UTC time in RFC 3339 form. The result
/// depends on the clock, so nothing is promised of it.
#[verifier::external_body]
pub(crate) fn now_rfc3339() -> (r: String) {
    chrono::Utc::now().to_rfc3339()
}

/// Relies on rusqlite::Connection::last_insert_rowid.
#[verifier::external_body]
pub(crate) fn last_insert_id(conn: &rusqlite::Connection) -> (r: i64)
    ensures
        r as int == last_rowid(*conn),
{
    conn.last_insert_rowid()
}

/// Relies on rusqlite::Connection::execute running a single INSERT into
/// projects: SQLite assigns a fresh AUTOINCREMENT rowid above every rowid
/// the table ever held, adds exactly that row, and touches no other table.
/// A failed statement either changes nothing or — inside an explicit
/// transaction, on the errors SQLite documents — rolls the whole
/// transaction back.
#[verifier::external_body]
pub(crate) fn insert_project(
    conn: &mut rusqlite::Connection,
    name: &str,
    created_at: &str,
    updated_at: &Option<String>,
) -> (r: Result<(), AppError>)
    requires
        schema_ok(*old(conn)),
    ensures
        r is Ok ==> admin_kept(*old(conn), *final(conn)),
        r is Ok ==> ({
            let nid = last_rowid(*final(conn));
            &&& nid >= 1
            &&& !projects_of(*old(conn)).contains_key(nid)
            &&& (forall|k: int| projects_of(*old(conn)).contains_key(k) ==> nid > k)
            &&& projects_of(*final(conn)) == projects_of(*old(conn)).insert(
                nid,
                (name@, created_at@, os_view(*updated_at)),
            )
            &&& tasks_of(*final(conn)) == tasks_of(*old(conn))
            &&& prompts_of(*final(conn)) == prompts_of(*old(conn))
        }),
        r matches Err(e) ==> e is DbError,
        r is Err ==> (admin_kept(*old(conn), *final(conn)) && db(*final(conn)) == db(*old(conn)))
            || stmt_aborted(*old(conn), *final(conn)),
{
    conn.execute(
        "INSERT INTO projects (name, created_at, updated_at) VALUES (?1, ?2, ?3)",
        (name, created_at, updated_at),
    ).map(|_| ()).map_err(db_err)
}

/// Relies on rusqlite::Connection::execute running a single INSERT into
/// tasks: with foreign keys on, it succeeds only if the project exists,
/// adds exactly one row under a fresh AUTOINCREMENT rowid above every
/// rowid the table ever held, and touches no other table. Failure is as
/// for the projects insert.
#[verifier::external_body]
pub(crate) fn insert_task(
    conn: &mut rusqlite::Connection,
    project_id: i64,
    name: &str,
    description: &Option<String>,
    created_at: &str,
    updated_at: &Option<String>,
) -> (r: Result<(), AppError>)
    requires
        schema_ok(*old(conn)),
    ensures
        r is Ok ==> admin_kept(*old(conn), *final(conn)),
        r is Ok ==> ({
            let nid = last_rowid(*final(conn));
            &&& nid >= 1
            &&& !tasks_of(*old(conn)).contains_key(nid)
            &&& (forall|k: int| tasks_of(*old(conn)).contains_key(k) ==> nid > k)
            &&& projects_of(*old(conn)).contains_key(project_id as int)
            &&& tasks_of(*final(conn)) == tasks_of(*old(conn)).insert(
                nid,
                (
                    project_id as int,
                    name@,
                    os_view(*description),
                    created_at@,
                    os_view(*updated_at),
                ),
            )
            &&& projects_of(*final(conn)) == projects_of(*old(conn))
            &&& prompts_of(*final(conn)) == prompts_of(*old(conn))
        }),
        r matches Err(e) ==> e is DbError,
        r is Err ==> (admin_kept(*old(conn), *final(conn)) && db(*final(conn)) == db(*old(conn)))
            || stmt_aborted(*old(conn), *final(conn)),
{
    conn.execute(
        "INSERT INTO tasks (project_id, name, description, created_at, updated_at) VALUES (?1, ?2, ?3, ?4, ?5)",
        (project_id, name, description, created_at, updated_at),
    ).map(|_| ()).map_err(db_err)
}

/// Relies on rusqlite::Connection::execute running a single INSERT into
/// prompt_entries: with foreign keys on, it succeeds only if the task
/// exists, adds exactly one row under a fresh AUTOINCREMENT rowid above
/// every rowid the table ever held, and touches no other table. Failure
/// is as for the projects insert.
#[verifier::external_body]
pub(crate) fn insert_prompt(
    conn: &mut rusqlite::Connection,
    task_id: i64,
    title: &Option<String>,
    content: &str,
    tags_text: &Option<String>,
    model: &Option<String>,
    created_at: &str,
    updated_at: &Option<String>,
) -> (r: Result<(), AppError>)
    requires
        schema_ok(*old(conn)),
    ensures
        r is Ok ==> admin_kept(*old(conn), *final(conn)),
        r is Ok ==> ({
            let nid = last_rowid(*final(conn));
            &&& nid >= 1
            &&& !prompts_of(*old(conn)).contains_key(nid)
            &&& (forall|k: int| prompts_of(*old(conn)).contains_key(k) ==> nid > k)
            &&& tasks_of(*old(conn)).contains_key(task_id as int)
            &&& prompts_of(*final(conn)) == prompts_of(*old(conn)).insert(
                nid,
                (
                    task_id as int,
                    os_view(*title),
                    content@,
                    os_view(*tags_text),
                    os_view(*model),
                    created_at@,
                    os_view(*updated_at),
                ),
            )
            &&& projects_of(*final(conn)) == projects_of(*old(conn))
            &&& tasks_of(*final(conn)) == tasks_of(*old(conn))
        }),
        r matches Err(e) ==> e is DbError,
        r is Err ==> (admin_kept(*old(conn), *final(conn)) && db(*final(conn)) == db(*old(conn)))
            || stmt_aborted(*old(conn), *final(conn)),
{
    conn.execute(
        "INSERT INTO prompt_entries (task_id, title, content, tags, model, created_at, updated_at) VALUES (?1, ?2, ?3, ?4, ?5, ?6, ?7)",
        (task_id, title, content, tags_text, model, created_at, updated_at),
    ).map(|_| ()).map_err(db_err)
}

/// Relies on rusqlite::Connection::execute running a single UPDATE of one
/// projects row by id: it reports the number of rows hit (0 or 1), changes
/// only that row's name and updated_at, and touches no other table.
/// Failure is as for the inserts: no change, or an automatic rollback of
/// an open transaction.
#[verifier::external_body]
pub(crate) fn update_project_row(
    conn: &mut rusqlite::Connection,
    id: i64,
    name: &str,
    updated_at: &str,
) -> (r: Result<usize, AppError>)
    requires
        schema_ok(*old(conn)),
    ensures
        r is Ok ==> admin_kept(*old(conn), *final(conn)),
        r matches Ok(n) ==> ({
            let m = projects_of(*old(conn));
            &&& n == (if m.contains_key(id as int) { 1int } else { 0int })
            &&& projects_of(*final(conn)) == (if m.contains_key(id as int) {
                m.insert(id as int, (name@, m[id as int].1, Some(updated_at@)))
            } else {
                m
            })
            &&& tasks_of(*final(conn)) == tasks_of(*old(conn))
            &&& prompts_of(*final(conn)) == prompts_of(*old(conn))
        }),
        r matches Err(e) ==> e is DbError,
        r is Err ==> (admin_kept(*old(conn), *final(conn)) && db(*final(conn)) == db(*old(conn)))
            || stmt_aborted(*old(conn), *final(conn)),
{
    conn.execute(
        "UPDATE projects SET name = ?1, updated_at = ?2 WHERE id = ?3",
        (name, updated_at, id),
    ).map_err(db_err)
}

/// Relies on rusqlite::Connection::execute running a single UPDATE of one
/// tasks row by id: same shape as the projects update; project_id and
/// created_at stay as they were.
#[verifier::external_body]
pub(crate) fn update_task_row(
    conn: &mut rusqlite::Connection,
    id: i64,
    name: &str,
    description: &Option<String>,
    updated_at: &str,
) -> (r: Result<usize, AppError>)
    requires
        schema_ok(*old(conn)),
    ensures
        r is Ok ==> admin_kept(*old(conn), *final(conn)),
        r matches Ok(n) ==> ({
            let m = tasks_of(*old(conn));
            &&& n == (if m.contains_key(id as int) { 1int } else { 0int })
            &&& tasks_of(*final(conn)) == (if m.contains_key(id as int) {
                m.insert(
                    id as int,
                    (
                        m[id as int].0,
                        name@,
                        os_view(*description),
                        m[id as int].3,
                        Some(updated_at@),
                    ),
                )
            } else {
                m
            })
            &&& projects_of(*final(conn)) == projects_of(*old(conn))
            &&& prompts_of(*final(conn)) == prompts_of(*old(conn))
        }),
        r matches Err(e) ==> e is DbError,
        r is Err ==> (admin_kept(*old(conn), *final(conn)) && db(*final(conn)) == db(*old(conn)))
            || stmt_aborted(*old(conn), *final(conn)),
{
    conn.execute(
        "UPDATE tasks SET name = ?1, description = ?2, updated_at = ?3 WHERE id = ?4",
        (name, description, updated_at, id),
    ).map_err(db_err)
}

/// Relies on rusqlite::Connection::execute running a single UPDATE of one
/// prompt_entries row by id; task_id and created_at stay as they were.
#[verifier::external_body]
pub(crate) fn update_prompt_row(
    conn: &mut rusqlite::Connection,
    id: i64,
    title: &Option<String>,
    content: &str,
    tags_text: &Option<String>,
    model: &Option<String>,
    updated_at: &str,
) -> (r: Result<usize, AppError>)
    requires
        schema_ok(*old(conn)),
    ensures
        r is Ok ==> admin_kept(*old(conn), *final(conn)),
        r matches Ok(n) ==> ({
            let m = prompts_of(*old(conn));
            &&& n == (if m.contains_key(id as int) { 1int } else { 0int })
            &&& prompts_of(*final(conn)) == (if m.contains_key(id as int) {
                m.insert(
                    id as int,
                    (
                        m[id as int].0,
                        os_view(*title),
                        content@,
                        os_view(*tags_text),
                        os_view(*model),
                        m[id as int].5,
                        Some(updated_at@),
                    ),
                )
            } else {
                m
            })
            &&& projects_of(*final(conn)) == projects_of(*old(conn))
            &&& tasks_of(*final(conn)) == tasks_of(*old(conn))
        }),
        r matches Err(e) ==> e is DbError,
        r is Err ==> (admin_kept(*old(conn), *final(conn)) && db(*final(conn)) == db(*old(conn)))
            || stmt_aborted(*old(conn), *final(conn)),
{
    conn.execute(
        "UPDATE prompt_entries SET title = ?1, content = ?2, tags = ?3, model = ?4, updated_at = ?5 WHERE id = ?6",
        (title, content, tags_text, model, updated_at, id),
    ).map_err(db_err)
}

/// Relies on rusqlite::Connection::execute running a single DELETE from
/// projects by id, with foreign keys on and ON DELETE CASCADE declared:
/// the project's tasks and their prompt entries go with it; a miss (0 rows)
/// changes nothing. Failure is as for the inserts.
#[verifier::external_body]
pub(crate) fn delete_project_row(conn: &mut rusqlite::Connection, id: i64) -> (r: Result<
    usize,
    AppError,
>)
    requires
        schema_ok(*old(conn)),
    ensures
        r is Ok ==> admin_kept(*old(conn), *final(conn)),
        r matches Ok(n) ==> ({
            &&& n == (if projects_of(*old(conn)).contains_key(id as int) { 1int } else { 0int })
            &&& db(*final(conn)) == delete_project_m(db(*old(conn)), id as int)
            &&& (n == 0 ==> db(*final(conn)) == db(*old(conn)))
        }),
        r matches Err(e) ==> e is DbError,
        r is Err ==> (admin_kept(*old(conn), *final(conn)) && db(*final(conn)) == db(*old(conn)))
            || stmt_aborted(*old(conn), *final(conn)),
{
    conn.execute("DELETE FROM projects WHERE id = ?1", (id,)).map_err(db_err)
}

/// Relies on rusqlite::Connection::execute running a single DELETE from
/// tasks by id, cascading to the task's prompt entries; failure as above.
#[verifier::external_body]
pub(crate) fn delete_task_row(conn: &mut rusqlite::Connection, id: i64) -> (r: Result<
    usize,
    AppError,
>)
    requires
        schema_ok(*old(conn)),
    ensures
        r is Ok ==> admin_kept(*old(conn), *final(conn)),
        r matches Ok(n) ==> ({
            &&& n == (if tasks_of(*old(conn)).contains_key(id as int) { 1int } else { 0int })
            &&& db(*final(conn)) == delete_task_m(db(*old(conn)), id as int)
            &&& (n == 0 ==> db(*final(conn)) == db(*old(conn)))
        }),
        r matches Err(e) ==> e is DbError,
        r is Err ==> (admin_kept(*old(conn), *final(conn)) && db(*final(conn)) == db(*old(conn)))
            || stmt_aborted(*old(conn), *final(conn)),
{
    conn.execute("DELETE FROM tasks WHERE id = ?1", (id,)).map_err(db_err)
}

/// Relies on rusqlite::Connection::execute running a single DELETE from
/// prompt_entries by id; failure as above.
#[verifier::external_body]
pub(crate) fn delete_prompt_row(conn: &mut rusqlite::Connection, id: i64) -> (r: Result<
    usize,
    AppError,
>)
    requires
        schema_ok(*old(conn)),
    ensures
        r is Ok ==> admin_kept(*old(conn), *final(conn)),
        r matches Ok(n) ==> ({
            &&& n == (if prompts_of(*old(conn)).contains_key(id as int) { 1int } else { 0int })
            &&& db(*final(conn)) == delete_prompt_m(db(*old(conn)), id as int)
        }),
        r matches Err(e) ==> e is DbError,
        r is Err ==> (admin_kept(*old(conn), *final(conn)) && db(*final(conn)) == db(*old(conn)))
            || stmt_aborted(*old(conn), *final(conn)),
{
    conn.execute("DELETE FROM prompt_entries WHERE id = ?1", (id,)).map_err(db_err)
}

/// Relies on rusqlite::Connection::execute_batch deleting every prompt
/// entry, then every task, then every project. On success all three tables
/// are empty; on failure the tables are unknown, and an open transaction
/// either survives with its rollback state intact or was rolled back by
/// SQLite itself.
#[verifier::external_body]
pub(crate) fn delete_all_rows(conn: &mut rusqlite::Connection) -> (r: Result<(), AppError>)
    requires
        schema_ok(*old(conn)),
    ensures
        r is Ok ==> admin_kept(*old(conn), *final(conn)),
        r is Ok ==> db(*final(conn)).is_empty(),
        r matches Err(e) ==> e is DbError,
        r is Err ==> admin_kept(*old(conn), *final(conn)) || stmt_aborted(
            *old(conn),
            *final(conn),
        ),
{
    conn.execute_batch(
        "DELETE FROM prompt_entries;
         DELETE FROM tasks;
         DELETE FROM projects;",
    ).map_err(db_err)
}

/// Relies on rusqlite::Connection::execute_batch running BEGIN: on success
/// a transaction is open and the current state becomes the rollback state;
/// a failed BEGIN changes nothing.
#[verifier::external_body]
pub(crate) fn begin_tx(conn: &mut rusqlite::Connection) -> (r: Result<(), AppError>)
    requires
        schema_ok(*old(conn)),
        !in_tx(*old(conn)),
    ensures
        schema_ok(*final(conn)),
        db(*final(conn)) == db(*old(conn)),
        r is Ok ==> in_tx(*final(conn)) && snap_projects(*final(conn)) == projects_of(*old(conn))
            && snap_tasks(*final(conn)) == tasks_of(*old(conn)) && snap_prompts(*final(conn))
            == prompts_of(*old(conn)),
        r is Err ==> !in_tx(*final(conn)),
        r matches Err(e) ==> e is DbError,
{
    conn.execute_batch("BEGIN").map_err(db_err)
}

/// Relies on rusqlite::Connection::execute_batch running COMMIT: on
/// success the transaction's work stands and the transaction is closed.
/// SQLite documents that a failed COMMIT either leaves the transaction
/// open and the state as it was, or rolls it back and closes it.
#[verifier::external_body]
pub(crate) fn commit_tx(conn: &mut rusqlite::Connection) -> (r: Result<(), AppError>)
    requires
        schema_ok(*old(conn)),
        in_tx(*old(conn)),
    ensures
        schema_ok(*final(conn)),
        r is Ok ==> db(*final(conn)) == db(*old(conn)) && !in_tx(*final(conn)),
        r is Err ==> (db(*final(conn)) == db(*old(conn)) && in_tx(*final(conn)) && db_snap(
            *final(conn),
        ) == db_snap(*old(conn))) || (db(*final(conn)) == db_snap(*old(conn)) && !in_tx(
            *final(conn),
        )),
        r matches Err(e) ==> e is DbError,
{
    conn.execute_batch("COMMIT").map_err(db_err)
}

/// Relies on rusqlite::Connection::execute_batch running ROLLBACK: it
/// restores the rollback state of an open transaction and closes it; run
/// with no transaction open it fails and changes nothing. The error is
/// dropped, as the original's transaction guard drops it.
#[verifier::external_body]
pub(crate) fn rollback_tx(conn: &mut rusqlite::Connection)
    requires
        schema_ok(*old(conn)),
    ensures
        schema_ok(*final(conn)),
        !in_tx(*final(conn)),
        in_tx(*old(conn)) ==> db(*final(conn)) == db_snap(*old(conn)),
        !in_tx(*old(conn)) ==> db(*final(conn)) == db(*old(conn)),
{
    let _ = conn.execute_batch("ROLLBACK");
}

/// Relies on rusqlite prepare / query_map running a SELECT of all
/// projects ordered by created_at descending: every row comes back exactly
/// once, in that order.
#[verifier::external_body]
pub(crate) fn select_projects_desc(conn: &rusqlite::Connection) -> (r: Result<
    Vec<ProjectDto>,
    AppError,
>)
    requires
        schema_ok(*conn),
    ensures
        r matches Ok(v) ==> lists_projects(v@, projects_of(*conn)) && (forall|i: int, j: int|
            0 <= i < j < v@.len() ==> str_le(v@[j].created_at@, v@[i].created_at@)),
        r matches Err(e) ==> e is DbError,
{
    let r = conn.prepare(
        "SELECT id, name, created_at, updated_at FROM projects ORDER BY created_at DESC",
    ).and_then(|mut s| s.query_map((), |row| Ok(ProjectDto {
            id: row.get(0)?, name: row.get(1)?, created_at: row.get(2)?, updated_at: row.get(3)?,
        }))?.collect());
    r.map_err(db_err)
}

/// Relies on the same SELECT ordered ascending, for the export walk.
#[verifier::external_body]
pub(crate) fn select_projects_asc(conn: &rusqlite::Connection) -> (r: Result<
    Vec<ProjectDto>,
    AppError,
>)
    requires
        schema_ok(*conn),
    ensures
        r matches Ok(v) ==> lists_projects(v@, projects_of(*conn)) && (forall|i: int, j: int|
            0 <= i < j < v@.len() ==> str_le(v@[i].created_at@, v@[j].created_at@)),
        r matches Err(e) ==> e is DbError,
{
    let r = conn.prepare(
        "SELECT id, name, created_at, updated_at FROM projects ORDER BY created_at ASC",
    ).and_then(|mut s| s.query_map((), |row| Ok(ProjectDto {
            id: row.get(0)?, name: row.get(1)?, created_at: row.get(2)?, updated_at: row.get(3)?,
        }))?.collect());
    r.map_err(db_err)
}

/// Relies on rusqlite query_row running a SELECT of one projects row by
/// id: a hit maps the row, a miss is told apart from a store failure.
#[verifier::external_body]
pub(crate) fn select_project(conn: &rusqlite::Connection, id: i64) -> (r: Result<
    Option<ProjectDto>,
    AppError,
>)
    requires
        schema_ok(*conn),
    ensures
        r matches Ok(Some(p)) ==> projects_of(*conn).contains_key(id as int)
            && crate::model::proj_matches(p, id as int, projects_of(*conn)[id as int]),
        r matches Ok(None) ==> !projects_of(*conn).contains_key(id as int),
        r matches Err(e) ==> e is DbError,
{
    let r = conn.query_row(
        "SELECT id, name, created_at, updated_at FROM projects WHERE id = ?1",
        (id,),
        |row| Ok(ProjectDto {
            id: row.get(0)?, name: row.get(1)?, created_at: row.get(2)?, updated_at: row.get(3)?,
        }),
    ).optional();
    r.map_err(db_err)
}

/// Relies on rusqlite prepare / query_map running a SELECT of the tasks
/// of one project ordered by created_at descending.
#[verifier::external_body]
pub(crate) fn select_tasks_desc(conn: &rusqlite::Connection, project_id: i64) -> (r: Result<
    Vec<TaskDto>,
    AppError,
>)
    requires
        schema_ok(*conn),
    ensures
        r matches Ok(v) ==> lists_tasks(v@, tasks_of(*conn), project_id as int) && (forall|
            i: int,
            j: int,
        |
            0 <= i < j < v@.len() ==> str_le(v@[j].created_at@, v@[i].created_at@)),
        r matches Err(e) ==> e is DbError,
{
    let r = conn.prepare(
        "SELECT id, project_id, name, description, created_at, updated_at FROM tasks WHERE project_id = ?1 ORDER BY created_at DESC",
    ).and_then(|mut s| s.query_map((project_id,), |row| Ok(TaskDto {
            id: row.get(0)?, project_id: row.get(1)?, name: row.get(2)?, description: row.get(3)?,
            created_at: row.get(4)?, updated_at: row.get(5)?,
        }))?.collect());
    r.map_err(db_err)
}

/// Relies on the same SELECT ordered ascending, for the export walk.
#[verifier::external_body]
pub(crate) fn select_tasks_asc(conn: &rusqlite::Connection, project_id: i64) -> (r: Result<
    Vec<TaskDto>,
    AppError,
>)
    requires
        schema_ok(*conn),
    ensures
        r matches Ok(v) ==> lists_tasks(v@, tasks_of(*conn), project_id as int) && (forall|
            i: int,
            j: int,
        |
            0 <= i < j < v@.len() ==> str_le(v@[i].created_at@, v@[j].created_at@)),
        r matches Err(e) ==> e is DbError,
{
    let r = conn.prepare(
        "SELECT id, project_id, name, description, created_at, updated_at FROM tasks WHERE project_id = ?1 ORDER BY created_at ASC",
    ).and_then(|mut s| s.query_map((project_id,), |row| Ok(TaskDto {
            id: row.get(0)?, project_id: row.get(1)?, name: row.get(2)?, description: row.get(3)?,
            created_at: row.get(4)?, updated_at: row.get(5)?,
        }))?.collect());
    r.map_err(db_err)
}

/// Relies on rusqlite query_row running a SELECT of one tasks row by id.
#[verifier::external_body]
pub(crate) fn select_task(conn: &rusqlite::Connection, id: i64) -> (r: Result<
    Option<TaskDto>,
    AppError,
>)
    requires
        schema_ok(*conn),
    ensures
        r matches Ok(Some(t)) ==> tasks_of(*conn).contains_key(id as int)
            && crate::model::task_matches(t, id as int, tasks_of(*conn)[id as int]),
        r matches Ok(None) ==> !tasks_of(*conn).contains_key(id as int),
        r matches Err(e) ==> e is DbError,
{
    let r = conn.query_row(
        "SELECT id, project_id, name, description, created_at, updated_at FROM tasks WHERE id = ?1",
        (id,),
        |row| Ok(TaskDto {
            id: row.get(0)?, project_id: row.get(1)?, name: row.get(2)?, description: row.get(3)?,
            created_at: row.get(4)?, updated_at: row.get(5)?,
        }),
    ).optional();
    r.map_err(db_err)
}

/// Relies on rusqlite prepare / query_map running a SELECT of the prompt
/// entries of one task, with the inclusive created_at range applied as
/// text comparison in the store, ordered by created_at descending.
#[verifier::external_body]
pub(crate) fn select_prompts_desc(
    conn: &rusqlite::Connection,
    task_id: i64,
    start_time: &Option<String>,
    end_time: &Option<String>,
) -> (r: Result<Vec<PromptRow>, AppError>)
    requires
        schema_ok(*conn),
    ensures
        r matches Ok(v) ==> lists_prompts(
            v@,
            prompts_of(*conn),
            task_id as int,
            os_view(*start_time),
            os_view(*end_time),
        ) && (forall|i: int, j: int|
            0 <= i < j < v@.len() ==> str_le(v@[j].created_at@, v@[i].created_at@)),
        r matches Err(e) ==> e is DbError,
{
    let r = conn.prepare(
        "SELECT id, task_id, title, content, tags, model, created_at, updated_at FROM prompt_entries WHERE task_id = ?1 AND (?2 IS NULL OR created_at >= ?2) AND (?3 IS NULL OR created_at <= ?3) ORDER BY created_at DESC",
    ).and_then(|mut s| s.query_map((task_id, start_time, end_time), |row| Ok(PromptRow {
            id: row.get(0)?, task_id: row.get(1)?, title: row.get(2)?, content: row.get(3)?,
            tags_text: row.get(4)?, model: row.get(5)?, created_at: row.get(6)?, updated_at: row.get(7)?,
        }))?.collect());
    r.map_err(db_err)
}

/// Relies on the same SELECT without the range, ordered ascending, for
/// the export walk.
#[verifier::external_body]
pub(crate) fn select_prompts_asc(conn: &rusqlite::Connection, task_id: i64) -> (r: Result<
    Vec<PromptRow>,
    AppError,
>)
    requires
        schema_ok(*conn),
    ensures
        r matches Ok(v) ==> lists_prompts(
            v@,
            prompts_of(*conn),
            task_id as int,
            None,
            None,
        ) && (forall|i: int, j: int|
            0 <= i < j < v@.len() ==> str_le(v@[i].created_at@, v@[j].created_at@)),
        r matches Err(e) ==> e is DbError,
{
    let r = conn.prepare(
        "SELECT id, task_id, title, content, tags, model, created_at, updated_at FROM prompt_entries WHERE task_id = ?1 ORDER BY created_at ASC",
    ).and_then(|mut s| s.query_map((task_id,), |row| Ok(PromptRow {
            id: row.get(0)?, task_id: row.get(1)?, title: row.get(2)?, content: row.get(3)?,
            tags_text: row.get(4)?, model: row.get(5)?, created_at: row.get(6)?, updated_at: row.get(7)?,
        }))?.collect());
    r.map_err(db_err)
}

/// Relies on rusqlite query_row running a SELECT of one prompt_entries
/// row by id.
#[verifier::external_body]
pub(crate) fn select_prompt(conn: &rusqlite::Connection, id: i64) -> (r: Result<
    Option<PromptRow>,
    AppError,
>)
    requires
        schema_ok(*conn),
    ensures
        r matches Ok(Some(p)) ==> prompts_of(*conn).contains_key(id as int)
            && crate::model::prompt_matches(p, id as int, prompts_of(*conn)[id as int]),
        r matches Ok(None) ==> !prompts_of(*conn).contains_key(id as int),
        r matches Err(e) ==> e is DbError,
{
    let r = conn.query_row(
        "SELECT id, task_id, title, content, tags, model, created_at, updated_at FROM prompt_entries WHERE id = ?1",
        (id,),
        |row| Ok(PromptRow {
            id: row.get(0)?, task_id: row.get(1)?, title: row.get(2)?, content: row.get(3)?,
            tags_text: row.get(4)?, model: row.get(5)?, created_at: row.get(6)?, updated_at: row.get(7)?,
        }),
    ).optional();
    r.map_err(db_err)
}

} // verus!
