use vstd::prelude::*;

use crate::error::AppError;
use crate::model::{lists_tasks, task_matches, TaskRec};
use crate::models::TaskDto;
use crate::store::{
    admin_kept, db, delete_task_row, in_tx, insert_task, last_insert_id, now_rfc3339, projects_of,
    prompts_of, schema_ok, select_task, select_tasks_desc, tasks_of, update_task_row,
};
use crate::text::{check_blank, is_blank};

verus! {

/// The value an optional text argument leaves in place of the current one:
/// a supplied value overrides, an absent one keeps the current value.
pub open spec fn merge_field(new: Option<Seq<char>>, cur: Option<Seq<char>>) -> Option<Seq<char>> {
    match new {
        Some(s) => Some(s),
        None => cur,
    }
}

pub open spec fn ostr_view(o: Option<&str>) -> Option<Seq<char>> {
    match o {
        Some(s) => Some(s@),
        None => None,
    }
}

/// Lists the tasks of one project, newest first by creation timestamp.
pub fn list_tasks_by_project(conn: &rusqlite::Connection, project_id: i64) -> (r: Result<
    Vec<TaskDto>,
    AppError,
>)
    requires
        schema_ok(*conn),
    ensures
        r matches Ok(v) ==> lists_tasks(v@, tasks_of(*conn), project_id as int) && (forall|
            i: int,
            j: int,
        |
            0 <= i < j < v@.len() ==> crate::text::str_le(v@[j].created_at@, v@[i].created_at@)),
        r matches Err(e) ==> e is DbError,
{
    select_tasks_desc(conn, project_id)
}

/// Creates a task under a project. A blank name is rejected; the store
/// enforces that the project exists.
pub fn create_task(
    conn: &mut rusqlite::Connection,
    project_id: i64,
    name: &str,
    description: Option<&str>,
) -> (r: Result<TaskDto, AppError>)
    requires
        schema_ok(*old(conn)),
        !in_tx(*old(conn)),
    ensures
        admin_kept(*old(conn), *final(conn)),
        (r matches Err(e) && e is ValidationError) <==> is_blank(name@),
        r is Err ==> db(*final(conn)) == db(*old(conn)),
        r matches Err(e) ==> e is ValidationError || e is DbError,
        r matches Ok(t) ==> ({
            &&& !is_blank(name@)
            &&& t.name@ == name@
            &&& t.project_id == project_id
            &&& t.updated_at is None
            &&& crate::model::os_view(t.description) == ostr_view(description)
            &&& t.id >= 1
            &&& !tasks_of(*old(conn)).contains_key(t.id as int)
            &&& (forall|k: int| tasks_of(*old(conn)).contains_key(k) ==> t.id as int > k)
            &&& projects_of(*old(conn)).contains_key(project_id as int)
            &&& tasks_of(*final(conn)) == tasks_of(*old(conn)).insert(
                t.id as int,
                (project_id as int, name@, ostr_view(description), t.created_at@, None),
            )
            &&& projects_of(*final(conn)) == projects_of(*old(conn))
            &&& prompts_of(*final(conn)) == prompts_of(*old(conn))
        }),
{
    if check_blank(name) {
        return Err(AppError::ValidationError(String::from_str("task name must not be empty")));
    }
    let now = now_rfc3339();
    let desc: Option<String> = match description {
        Some(s) => Some(s.to_owned()),
        None => None,
    };
    let none_updated: Option<String> = None;
    insert_task(conn, project_id, name, &desc, now.as_str(), &none_updated)?;
    let id = last_insert_id(conn);
    Ok(
        TaskDto {
            id,
            project_id,
            name: name.to_owned(),
            description: desc,
            created_at: now,
            updated_at: None,
        },
    )
}

/// Partially updates a task: a supplied field overrides the stored one,
/// an absent field keeps it. The merged name is re-validated; the update
/// timestamp is set. A missing id fails with Not-Found.
pub fn update_task(
    conn: &mut rusqlite::Connection,
    id: i64,
    name: Option<&str>,
    description: Option<&str>,
) -> (r: Result<(), AppError>)
    requires
        schema_ok(*old(conn)),
        !in_tx(*old(conn)),
    ensures
        admin_kept(*old(conn), *final(conn)),
        r is Err ==> db(*final(conn)) == db(*old(conn)),
        r matches Err(e) ==> e is ValidationError || e is DbError || e is NotFound,
        (r matches Err(e) && e is NotFound) ==> !tasks_of(*old(conn)).contains_key(id as int),
        !tasks_of(*old(conn)).contains_key(id as int) ==> r is Err && !(r matches Err(e)
            && e is ValidationError),
        (r matches Err(e) && e is ValidationError) ==> tasks_of(*old(conn)).contains_key(id as int)
            && is_blank(
            merge_field(ostr_view(name), Some(tasks_of(*old(conn))[id as int].1)).unwrap(),
        ),
        r is Ok ==> ({
            let m = tasks_of(*old(conn));
            let cur = m[id as int];
            let new_name = merge_field(ostr_view(name), Some(cur.1)).unwrap();
            let new_desc = merge_field(ostr_view(description), cur.2);
            &&& m.contains_key(id as int)
            &&& !is_blank(new_name)
            &&& (exists|ts: Seq<char>|
                tasks_of(*final(conn)) == m.insert(
                    id as int,
                    (cur.0, new_name, new_desc, cur.3, Some(ts)),
                ))
            &&& projects_of(*final(conn)) == projects_of(*old(conn))
            &&& prompts_of(*final(conn)) == prompts_of(*old(conn))
        }),
{
    let cur = match select_task(conn, id)? {
        Some(t) => t,
        None => {
            return Err(AppError::NotFound(String::from_str("task not found")));
        },
    };
    let new_name: String = match name {
        Some(s) => s.to_owned(),
        None => cur.name,
    };
    let new_desc: Option<String> = match description {
        Some(s) => Some(s.to_owned()),
        None => cur.description,
    };
    if check_blank(new_name.as_str()) {
        return Err(AppError::ValidationError(String::from_str("task name must not be empty")));
    }
    let now = now_rfc3339();
    let _affected = update_task_row(conn, id, new_name.as_str(), &new_desc, now.as_str())?;
    Ok(())
}

/// Deletes a task by id, cascading to its prompt entries. A missing id
/// fails with Not-Found, so deleting the same id twice fails the second
/// time.
pub fn delete_task(conn: &mut rusqlite::Connection, id: i64) -> (r: Result<(), AppError>)
    requires
        schema_ok(*old(conn)),
        !in_tx(*old(conn)),
    ensures
        admin_kept(*old(conn), *final(conn)),
        r is Err ==> db(*final(conn)) == db(*old(conn)),
        r matches Err(e) ==> e is DbError || e is NotFound,
        (r matches Err(e) && e is NotFound) ==> !tasks_of(*old(conn)).contains_key(id as int),
        r is Ok ==> tasks_of(*old(conn)).contains_key(id as int) && db(*final(conn))
            == crate::model::delete_task_m(db(*old(conn)), id as int),
        !tasks_of(*old(conn)).contains_key(id as int) ==> r is Err,
{
    let affected = delete_task_row(conn, id)?;
    if affected == 0 {
        return Err(AppError::NotFound(String::from_str("task not found")));
    }
    Ok(())
}

/// Fetches one task by id; a missing id fails with Not-Found.
pub fn get_task(conn: &rusqlite::Connection, id: i64) -> (r: Result<TaskDto, AppError>)
    requires
        schema_ok(*conn),
    ensures
        r matches Ok(t) ==> tasks_of(*conn).contains_key(id as int) && task_matches(
            t,
            id as int,
            tasks_of(*conn)[id as int],
        ),
        r matches Err(e) ==> e is DbError || e is NotFound,
        (r matches Err(e) && e is NotFound) ==> !tasks_of(*conn).contains_key(id as int),
        !tasks_of(*conn).contains_key(id as int) ==> r is Err,
{
    match select_task(conn, id)? {
        Some(t) => Ok(t),
        None => Err(AppError::NotFound(String::from_str("task not found"))),
    }
}

} // verus!
