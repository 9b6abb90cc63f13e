use prompt_store::backup_service::{export_snapshot, import_replace, ExportData};
use prompt_store::connection::open_memory_store;
use prompt_store::project_repository::{create_project, list_projects};
use prompt_store::prompt_repository::{create_prompt, list_prompts_by_task};
use prompt_store::search_service::{generate_snippet, search_prompts};
use prompt_store::tags::{decode_tags, encode_tags};
use prompt_store::task_repository::{create_task, list_tasks_by_project};

fn tiny_pause() {
    let t0 = std::time::Instant::now();
    while t0.elapsed() < std::time::Duration::from_millis(3) {}
}

#[test]
fn blank_keyword_returns_empty() {
    let conn = open_memory_store().unwrap();
    assert!(search_prompts(&conn, "", None, None, 50).unwrap().is_empty());
    assert!(search_prompts(&conn, "   ", None, None, 50).unwrap().is_empty());
}

#[test]
fn search_finds_by_title_and_content() {
    let mut conn = open_memory_store().unwrap();
    let p = create_project(&mut conn, "proj").unwrap();
    let t = create_task(&mut conn, p.id, "task", None).unwrap();
    create_prompt(&mut conn, t.id, Some("Greeting Words"), "plain body", None, None).unwrap();
    create_prompt(&mut conn, t.id, None, "a body that greets the world", None, None).unwrap();
    let hits = search_prompts(&conn, "greet", None, None, 50).unwrap();
    assert_eq!(hits.len(), 2);
    for h in &hits {
        assert_eq!(h.project_name, "proj");
        assert_eq!(h.task_name, "task");
    }
    let scoped = search_prompts(&conn, "greet", Some(p.id + 1), None, 50).unwrap();
    assert!(scoped.is_empty());
    let limited = search_prompts(&conn, "greet", None, None, 1).unwrap();
    assert_eq!(limited.len(), 1);
}

#[test]
fn search_is_case_insensitive_for_ascii() {
    let mut conn = open_memory_store().unwrap();
    let p = create_project(&mut conn, "p").unwrap();
    let t = create_task(&mut conn, p.id, "t", None).unwrap();
    create_prompt(&mut conn, t.id, Some("HeLLo World"), "zzz", None, None).unwrap();
    let hits = search_prompts(&conn, "hello", None, None, 50).unwrap();
    assert_eq!(hits.len(), 1);
    assert_eq!(hits[0].snippet, "[title] HeLLo World");
}

#[test]
fn snippet_title_match_takes_precedence() {
    let s = generate_snippet(
        "content that also says hello somewhere",
        &Some("Say Hello".to_string()),
        "hello",
    );
    assert_eq!(s, "[title] Say Hello");
}

#[test]
fn snippet_window_with_both_ellipses() {
    let mut content = String::new();
    for _ in 0..120 {
        content.push('b');
    }
    content.push_str("needle");
    for _ in 0..74 {
        content.push('c');
    }
    assert_eq!(content.len(), 200);
    let s = generate_snippet(&content, &None, "needle");
    let window: String = content.chars().skip(70).take(176 - 70).collect();
    assert_eq!(s, format!("...{}...", window));
    assert!(s.contains("needle"));
}

#[test]
fn snippet_at_start_has_no_leading_ellipsis() {
    let s = generate_snippet("needle then some short tail", &None, "needle");
    assert_eq!(s, "needle then some short tail");
}

#[test]
fn snippet_fallback_clips_to_100_chars() {
    let mut content = String::new();
    for _ in 0..150 {
        content.push('x');
    }
    let s = generate_snippet(&content, &None, "absent");
    let head: String = content.chars().take(100).collect();
    assert_eq!(s, format!("{}...", head));
    let short = generate_snippet("tiny", &None, "absent");
    assert_eq!(short, "tiny");
}

#[test]
fn tags_round_trip_with_escapes() {
    let tags = vec![
        "plain".to_string(),
        "with \"quotes\"".to_string(),
        "back\\slash".to_string(),
        "line\nbreak\ttab\rret".to_string(),
        "ctl\u{1}end".to_string(),
        "".to_string(),
    ];
    let text = encode_tags(&tags);
    assert_eq!(decode_tags(&text), Some(tags));
    assert_eq!(encode_tags(&Vec::new()), "[]");
    assert_eq!(decode_tags("[]"), Some(Vec::new()));
}

#[test]
fn tags_decode_accepts_ordinary_json() {
    assert_eq!(
        decode_tags("[\"a\", \"b\"]"),
        Some(vec!["a".to_string(), "b".to_string()])
    );
    assert_eq!(
        decode_tags("  [ \"a\" ,\n\t\"b\" ]  "),
        Some(vec!["a".to_string(), "b".to_string()])
    );
    assert_eq!(decode_tags("[ ]"), Some(Vec::new()));
    assert_eq!(
        decode_tags("[\"\\u0041\\u00e9\", \"x\\by\\fz\", \"a\\/b\"]"),
        Some(vec!["A\u{e9}".to_string(), "x\u{8}y\u{c}z".to_string(), "a/b".to_string()])
    );
}

#[test]
fn tags_lenient_decode_rejects_garbage() {
    assert_eq!(decode_tags(""), None);
    assert_eq!(decode_tags("not json"), None);
    assert_eq!(decode_tags("[\"unterminated"), None);
    assert_eq!(decode_tags("{\"a\":1}"), None);
    assert_eq!(decode_tags("[\"a\"]trailing"), None);
    assert_eq!(decode_tags("[\"bad escape \\x\"]"), None);
    assert_eq!(decode_tags("[\"lone surrogate \\ud800\"]"), None);
    assert_eq!(decode_tags("[\"a\",]"), None);
}

fn sample_store() -> rusqlite::Connection {
    let mut conn = open_memory_store().unwrap();
    let p1 = create_project(&mut conn, "first").unwrap();
    tiny_pause();
    let p2 = create_project(&mut conn, "second").unwrap();
    let t1 = create_task(&mut conn, p1.id, "t-one", Some("desc")).unwrap();
    tiny_pause();
    let t2 = create_task(&mut conn, p2.id, "t-two", None).unwrap();
    let tags = vec!["a".to_string(), "b\"x".to_string()];
    create_prompt(&mut conn, t1.id, Some("ti"), "body one", Some(&tags), Some("m")).unwrap();
    tiny_pause();
    create_prompt(&mut conn, t1.id, None, "body two", None, None).unwrap();
    create_prompt(&mut conn, t2.id, Some("other"), "   ", None, Some("m2")).unwrap();
    conn
}

fn doc_shape(d: &ExportData) -> Vec<(String, Vec<(String, Option<String>, Vec<(Option<String>, String, Option<Vec<String>>, Option<String>)>)>)> {
    d.projects
        .iter()
        .map(|p| {
            (
                p.name.clone(),
                p.tasks
                    .iter()
                    .map(|t| {
                        (
                            t.name.clone(),
                            t.description.clone(),
                            t.prompts
                                .iter()
                                .map(|e| {
                                    (e.title.clone(), e.content.clone(), e.tags.clone(), e.model.clone())
                                })
                                .collect(),
                        )
                    })
                    .collect(),
            )
        })
        .collect()
}

#[test]
fn export_then_import_reproduces_hierarchy() {
    let conn = sample_store();
    let doc = export_snapshot(&conn).unwrap();
    assert_eq!(doc.version, 1);
    let mut fresh = open_memory_store().unwrap();
    import_replace(&mut fresh, &doc).unwrap();
    let doc2 = export_snapshot(&fresh).unwrap();
    assert_eq!(doc_shape(&doc), doc_shape(&doc2));
    let projects = list_projects(&fresh).unwrap();
    assert_eq!(projects.len(), 2);
    for p in &projects {
        let tasks = list_tasks_by_project(&fresh, p.id).unwrap();
        for t in &tasks {
            assert_eq!(t.project_id, p.id);
            for e in list_prompts_by_task(&fresh, t.id, None, None, None).unwrap() {
                assert_eq!(e.task_id, t.id);
            }
        }
    }
}

#[test]
fn import_replaces_previous_contents() {
    let conn = sample_store();
    let doc = export_snapshot(&conn).unwrap();
    let mut target = open_memory_store().unwrap();
    create_project(&mut target, "doomed").unwrap();
    import_replace(&mut target, &doc).unwrap();
    let names: Vec<String> =
        list_projects(&target).unwrap().into_iter().map(|p| p.name).collect();
    assert!(!names.contains(&"doomed".to_string()));
    assert_eq!(names.len(), 2);
}

#[test]
fn export_preserves_timestamps_and_tags() {
    let conn = sample_store();
    let doc = export_snapshot(&conn).unwrap();
    let mut fresh = open_memory_store().unwrap();
    import_replace(&mut fresh, &doc).unwrap();
    let doc2 = export_snapshot(&fresh).unwrap();
    for (p1, p2) in doc.projects.iter().zip(doc2.projects.iter()) {
        assert_eq!(p1.created_at, p2.created_at);
        assert_eq!(p1.updated_at, p2.updated_at);
        for (t1, t2) in p1.tasks.iter().zip(p2.tasks.iter()) {
            assert_eq!(t1.created_at, t2.created_at);
            for (e1, e2) in t1.prompts.iter().zip(t2.prompts.iter()) {
                assert_eq!(e1.created_at, e2.created_at);
                assert_eq!(e1.tags, e2.tags);
            }
        }
    }
}
