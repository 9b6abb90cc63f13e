use vstd::prelude::*;

use crate::error::AppError;
use crate::model::{lists_projects, proj_matches};
use crate::models::ProjectDto;
use crate::store::{
    admin_kept, db, delete_project_row, in_tx, insert_project, last_insert_id, now_rfc3339,
    projects_of, prompts_of, schema_ok, select_project, select_projects_desc, tasks_of,
    update_project_row,
};
use crate::text::{check_blank, is_blank};

verus! {

/// Lists every project, newest first by creation timestamp.
pub fn list_projects(conn: &rusqlite::Connection) -> (r: Result<Vec<ProjectDto>, AppError>)
    requires
        schema_ok(*conn),
    ensures
        r matches Ok(v) ==> lists_projects(v@, projects_of(*conn)) && (forall|i: int, j: int|
            0 <= i < j < v@.len() ==> crate::text::str_le(v@[j].created_at@, v@[i].created_at@)),
        r matches Err(e) ==> e is DbError,
{
    select_projects_desc(conn)
}

/// Creates a project. A blank name (empty or white space only) is
/// rejected; on success the new row carries the fresh id, the creation
/// timestamp, and no update timestamp yet.
pub fn create_project(conn: &mut rusqlite::Connection, name: &str) -> (r: Result<
    ProjectDto,
    AppError,
>)
    requires
        schema_ok(*old(conn)),
        !in_tx(*old(conn)),
    ensures
        admin_kept(*old(conn), *final(conn)),
        (r matches Err(e) && e is ValidationError) <==> is_blank(name@),
        r is Err ==> db(*final(conn)) == db(*old(conn)),
        r matches Err(e) ==> e is ValidationError || e is DbError,
        r matches Ok(p) ==> ({
            &&& !is_blank(name@)
            &&& p.name@ == name@
            &&& p.updated_at is None
            &&& p.id >= 1
            &&& !projects_of(*old(conn)).contains_key(p.id as int)
            &&& (forall|k: int| projects_of(*old(conn)).contains_key(k) ==> p.id as int > k)
            &&& projects_of(*final(conn)) == projects_of(*old(conn)).insert(
                p.id as int,
                (name@, p.created_at@, None),
            )
            &&& tasks_of(*final(conn)) == tasks_of(*old(conn))
            &&& prompts_of(*final(conn)) == prompts_of(*old(conn))
        }),
{
    if check_blank(name) {
        return Err(AppError::ValidationError(String::from_str("project name must not be empty")));
    }
    let now = now_rfc3339();
    let none_updated: Option<String> = None;
    insert_project(conn, name, now.as_str(), &none_updated)?;
    let id = last_insert_id(conn);
    Ok(ProjectDto { id, name: name.to_owned(), created_at: now, updated_at: None })
}

/// Updates a project's name. A blank name is rejected; a missing id
/// fails with Not-Found; on success the name is replaced and the update
/// timestamp set, everything else kept.
pub fn update_project(conn: &mut rusqlite::Connection, id: i64, name: &str) -> (r: Result<
    (),
    AppError,
>)
    requires
        schema_ok(*old(conn)),
        !in_tx(*old(conn)),
    ensures
        admin_kept(*old(conn), *final(conn)),
        (r matches Err(e) && e is ValidationError) <==> is_blank(name@),
        r is Err ==> db(*final(conn)) == db(*old(conn)),
        r matches Err(e) ==> e is ValidationError || e is DbError || e is NotFound,
        (r matches Err(e) && e is NotFound) ==> !projects_of(*old(conn)).contains_key(id as int),
        r is Ok ==> ({
            let m = projects_of(*old(conn));
            &&& m.contains_key(id as int)
            &&& (exists|ts: Seq<char>|
                projects_of(*final(conn)) == m.insert(
                    id as int,
                    (name@, m[id as int].1, Some(ts)),
                ))
            &&& tasks_of(*final(conn)) == tasks_of(*old(conn))
            &&& prompts_of(*final(conn)) == prompts_of(*old(conn))
        }),
        !projects_of(*old(conn)).contains_key(id as int) ==> r is Err,
{
    if check_blank(name) {
        return Err(AppError::ValidationError(String::from_str("project name must not be empty")));
    }
    let now = now_rfc3339();
    let affected = update_project_row(conn, id, name, now.as_str())?;
    if affected == 0 {
        return Err(AppError::NotFound(String::from_str("project not found")));
    }
    Ok(())
}

/// Deletes a project by id, cascading to its tasks and their prompt
/// entries. A missing id fails with Not-Found, so deleting the same id
/// twice fails the second time.
pub fn delete_project(conn: &mut rusqlite::Connection, id: i64) -> (r: Result<(), AppError>)
    requires
        schema_ok(*old(conn)),
        !in_tx(*old(conn)),
    ensures
        admin_kept(*old(conn), *final(conn)),
        r is Err ==> db(*final(conn)) == db(*old(conn)),
        r matches Err(e) ==> e is DbError || e is NotFound,
        (r matches Err(e) && e is NotFound) ==> !projects_of(*old(conn)).contains_key(id as int),
        r is Ok ==> projects_of(*old(conn)).contains_key(id as int) && db(*final(conn))
            == crate::model::delete_project_m(db(*old(conn)), id as int),
        !projects_of(*old(conn)).contains_key(id as int) ==> r is Err,
{
    let affected = delete_project_row(conn, id)?;
    if affected == 0 {
        return Err(AppError::NotFound(String::from_str("project not found")));
    }
    Ok(())
}

/// Fetches one project by id; a missing id fails with Not-Found.
pub fn get_project(conn: &rusqlite::Connection, id: i64) -> (r: Result<ProjectDto, AppError>)
    requires
        schema_ok(*conn),
    ensures
        r matches Ok(p) ==> projects_of(*conn).contains_key(id as int) && proj_matches(
            p,
            id as int,
            projects_of(*conn)[id as int],
        ),
        r matches Err(e) ==> e is DbError || e is NotFound,
        (r matches Err(e) && e is NotFound) ==> !projects_of(*conn).contains_key(id as int),
        !projects_of(*conn).contains_key(id as int) ==> r is Err,
{
    match select_project(conn, id)? {
        Some(p) => Ok(p),
        None => Err(AppError::NotFound(String::from_str("project not found"))),
    }
}

} // verus!
