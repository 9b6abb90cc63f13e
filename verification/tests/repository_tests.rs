use prompt_store::connection::open_memory_store;
use prompt_store::error::{ApiError, AppError};
use prompt_store::project_repository::{
    create_project, delete_project, get_project, list_projects, update_project,
};
use prompt_store::prompt_repository::{
    create_prompt, delete_prompt, get_prompt, list_prompts_by_task, update_prompt,
};
use prompt_store::task_repository::{
    create_task, delete_task, get_task, list_tasks_by_project, update_task,
};


fn brief_pause() {
    let t0 = std::time::Instant::now();
    while t0.elapsed() < std::time::Duration::from_millis(3) {}
}

fn is_validation(e: &AppError) -> bool {
    matches!(e, AppError::ValidationError(_))
}

fn is_not_found(e: &AppError) -> bool {
    matches!(e, AppError::NotFound(_))
}

#[test]
fn create_project_empty_name_fails() {
    let mut conn = open_memory_store().unwrap();
    assert!(is_validation(&create_project(&mut conn, "").unwrap_err()));
    assert!(is_validation(&create_project(&mut conn, "   \t\n").unwrap_err()));
    assert!(list_projects(&conn).unwrap().is_empty());
}

#[test]
fn create_task_blank_name_fails() {
    let mut conn = open_memory_store().unwrap();
    let p = create_project(&mut conn, "p").unwrap();
    assert!(is_validation(&create_task(&mut conn, p.id, "  ", None).unwrap_err()));
}

#[test]
fn create_prompt_empty_content_fails_whitespace_succeeds() {
    let mut conn = open_memory_store().unwrap();
    let p = create_project(&mut conn, "p").unwrap();
    let t = create_task(&mut conn, p.id, "t", None).unwrap();
    assert!(is_validation(&create_prompt(&mut conn, t.id, None, "", None, None).unwrap_err()));
    let e = create_prompt(&mut conn, t.id, None, "   ", None, None).unwrap();
    assert_eq!(e.content, "   ");
    assert!(e.updated_at.is_none());
}

#[test]
fn created_project_fields() {
    let mut conn = open_memory_store().unwrap();
    let p = create_project(&mut conn, "alpha").unwrap();
    assert!(p.id >= 1);
    assert_eq!(p.name, "alpha");
    assert!(!p.created_at.is_empty());
    assert!(p.updated_at.is_none());
    let got = get_project(&conn, p.id).unwrap();
    assert_eq!(got.name, "alpha");
    assert_eq!(got.created_at, p.created_at);
}

#[test]
fn delete_project_cascades_to_tasks_and_prompts() {
    let mut conn = open_memory_store().unwrap();
    let p = create_project(&mut conn, "p").unwrap();
    let t = create_task(&mut conn, p.id, "t", Some("d")).unwrap();
    create_prompt(&mut conn, t.id, Some("title"), "content", None, None).unwrap();
    delete_project(&mut conn, p.id).unwrap();
    assert!(list_tasks_by_project(&conn, p.id).unwrap().is_empty());
    assert!(list_prompts_by_task(&conn, t.id, None, None, None).unwrap().is_empty());
    assert!(is_not_found(&get_task(&conn, t.id).unwrap_err()));
}

#[test]
fn delete_task_cascades_to_prompts() {
    let mut conn = open_memory_store().unwrap();
    let p = create_project(&mut conn, "p").unwrap();
    let t = create_task(&mut conn, p.id, "t", None).unwrap();
    let e = create_prompt(&mut conn, t.id, None, "c", None, None).unwrap();
    delete_task(&mut conn, t.id).unwrap();
    assert!(list_prompts_by_task(&conn, t.id, None, None, None).unwrap().is_empty());
    assert!(is_not_found(&get_prompt(&conn, e.id).unwrap_err()));
}

#[test]
fn update_task_preserves_unset_fields() {
    let mut conn = open_memory_store().unwrap();
    let p = create_project(&mut conn, "p").unwrap();
    let t = create_task(&mut conn, p.id, "original", Some("described")).unwrap();
    assert!(t.updated_at.is_none());
    update_task(&mut conn, t.id, None, None).unwrap();
    let after = get_task(&conn, t.id).unwrap();
    assert_eq!(after.name, "original");
    assert_eq!(after.description.as_deref(), Some("described"));
    assert!(after.updated_at.is_some());
    update_task(&mut conn, t.id, Some("renamed"), None).unwrap();
    let after2 = get_task(&conn, t.id).unwrap();
    assert_eq!(after2.name, "renamed");
    assert_eq!(after2.description.as_deref(), Some("described"));
    assert_eq!(after2.created_at, t.created_at);
}

#[test]
fn update_task_blank_merged_name_fails() {
    let mut conn = open_memory_store().unwrap();
    let p = create_project(&mut conn, "p").unwrap();
    let t = create_task(&mut conn, p.id, "t", None).unwrap();
    assert!(is_validation(&update_task(&mut conn, t.id, Some(" "), None).unwrap_err()));
    assert_eq!(get_task(&conn, t.id).unwrap().name, "t");
}

#[test]
fn update_prompt_preserves_unset_fields() {
    let mut conn = open_memory_store().unwrap();
    let p = create_project(&mut conn, "p").unwrap();
    let t = create_task(&mut conn, p.id, "t", None).unwrap();
    let tags = vec!["a".to_string(), "b".to_string()];
    let e = create_prompt(&mut conn, t.id, Some("ti"), "co", Some(&tags), Some("m1")).unwrap();
    update_prompt(&mut conn, e.id, None, Some("co2"), None, None).unwrap();
    let after = get_prompt(&conn, e.id).unwrap();
    assert_eq!(after.title.as_deref(), Some("ti"));
    assert_eq!(after.content, "co2");
    assert_eq!(after.tags.as_deref(), Some(&["a".to_string(), "b".to_string()][..]));
    assert_eq!(after.model.as_deref(), Some("m1"));
    assert!(after.updated_at.is_some());
    assert_eq!(after.created_at, e.created_at);
}

#[test]
fn update_project_nonexistent_is_not_found() {
    let mut conn = open_memory_store().unwrap();
    assert!(is_not_found(&update_project(&mut conn, 424242, "x").unwrap_err()));
}

#[test]
fn delete_nonexistent_fails_each_entity() {
    let mut conn = open_memory_store().unwrap();
    assert!(is_not_found(&delete_project(&mut conn, 99).unwrap_err()));
    assert!(is_not_found(&delete_task(&mut conn, 99).unwrap_err()));
    assert!(is_not_found(&delete_prompt(&mut conn, 99).unwrap_err()));
}

#[test]
fn delete_twice_fails_second_time() {
    let mut conn = open_memory_store().unwrap();
    let p = create_project(&mut conn, "p").unwrap();
    delete_project(&mut conn, p.id).unwrap();
    assert!(is_not_found(&delete_project(&mut conn, p.id).unwrap_err()));
    let p2 = create_project(&mut conn, "p2").unwrap();
    let t = create_task(&mut conn, p2.id, "t", None).unwrap();
    delete_task(&mut conn, t.id).unwrap();
    assert!(is_not_found(&delete_task(&mut conn, t.id).unwrap_err()));
}

#[test]
fn list_projects_newest_first() {
    let mut conn = open_memory_store().unwrap();
    create_project(&mut conn, "one").unwrap();
    brief_pause();
    create_project(&mut conn, "two").unwrap();
    let all = list_projects(&conn).unwrap();
    assert_eq!(all.len(), 2);
    assert_eq!(all[0].name, "two");
    assert_eq!(all[1].name, "one");
    assert!(all[0].created_at >= all[1].created_at);
}

#[test]
fn tag_filter_uses_intersection() {
    let mut conn = open_memory_store().unwrap();
    let p = create_project(&mut conn, "p").unwrap();
    let t = create_task(&mut conn, p.id, "t", None).unwrap();
    let tags = vec!["a".to_string(), "b".to_string()];
    let e = create_prompt(&mut conn, t.id, None, "c", Some(&tags), None).unwrap();
    let hit = vec!["b".to_string(), "c".to_string()];
    let miss = vec!["x".to_string(), "y".to_string()];
    let with_hit = list_prompts_by_task(&conn, t.id, None, None, Some(&hit)).unwrap();
    assert_eq!(with_hit.len(), 1);
    assert_eq!(with_hit[0].id, e.id);
    let with_miss = list_prompts_by_task(&conn, t.id, None, None, Some(&miss)).unwrap();
    assert!(with_miss.is_empty());
    let untagged = create_prompt(&mut conn, t.id, None, "c2", None, None).unwrap();
    let filtered = list_prompts_by_task(&conn, t.id, None, None, Some(&hit)).unwrap();
    assert!(filtered.iter().all(|x| x.id != untagged.id));
}

#[test]
fn list_prompts_time_range_is_inclusive() {
    let mut conn = open_memory_store().unwrap();
    let p = create_project(&mut conn, "p").unwrap();
    let t = create_task(&mut conn, p.id, "t", None).unwrap();
    let e1 = create_prompt(&mut conn, t.id, None, "first", None, None).unwrap();
    brief_pause();
    let e2 = create_prompt(&mut conn, t.id, None, "second", None, None).unwrap();
    let all = list_prompts_by_task(&conn, t.id, None, None, None).unwrap();
    assert_eq!(all.len(), 2);
    assert_eq!(all[0].id, e2.id);
    let only_first =
        list_prompts_by_task(&conn, t.id, Some(&e1.created_at), Some(&e1.created_at), None)
            .unwrap();
    assert_eq!(only_first.len(), 1);
    assert_eq!(only_first[0].id, e1.id);
    let from_second = list_prompts_by_task(&conn, t.id, Some(&e2.created_at), None, None).unwrap();
    assert_eq!(from_second.len(), 1);
    assert_eq!(from_second[0].id, e2.id);
}

#[test]
fn api_error_codes_are_stable() {
    let cases = vec![
        (AppError::DbError("x".to_string()), "DB_ERROR"),
        (AppError::IoError("x".to_string()), "IO_ERROR"),
        (AppError::NotFound("gone".to_string()), "NOT_FOUND"),
        (AppError::ValidationError("bad".to_string()), "VALIDATION_ERROR"),
        (AppError::JsonError("x".to_string()), "JSON_ERROR"),
        (AppError::Unknown("x".to_string()), "UNKNOWN"),
    ];
    for (err, code) in cases {
        assert_eq!(ApiError::from(err).code, code);
    }
    let api = ApiError::from(AppError::NotFound("gone".to_string()));
    assert_eq!(api.message, "gone");
    assert_eq!(api.render(), "[NOT_FOUND] gone");
    let db = ApiError::from(AppError::DbError("boom".to_string()));
    assert_eq!(db.message, "database operation failed: boom");
}
