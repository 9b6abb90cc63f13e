use vstd::prelude::*;

verus! {

/// A project row as handed to callers.
#[derive(Debug, Clone)]
pub struct ProjectDto {
    pub id: i64,
    pub name: String,
    pub created_at: String,
    pub updated_at: Option<String>,
}

/// A task row as handed to callers.
#[derive(Debug, Clone)]
pub struct TaskDto {
    pub id: i64,
    pub project_id: i64,
    pub name: String,
    pub description: Option<String>,
    pub created_at: String,
    pub updated_at: Option<String>,
}

/// A prompt entry as handed to callers: its tags are decoded from the
/// stored text (leniently: undecodable text counts as no tags).
#[derive(Debug, Clone)]
pub struct PromptEntryDto {
    pub id: i64,
    pub task_id: i64,
    pub title: Option<String>,
    pub content: String,
    pub tags: Option<Vec<String>>,
    pub model: Option<String>,
    pub created_at: String,
    pub updated_at: Option<String>,
}

/// A prompt entry exactly as stored: tags still as serialized text.
#[derive(Debug, Clone)]
pub struct PromptRow {
    pub id: i64,
    pub task_id: i64,
    pub title: Option<String>,
    pub content: String,
    pub tags_text: Option<String>,
    pub model: Option<String>,
    pub created_at: String,
    pub updated_at: Option<String>,
}

/// One search hit: the entry joined with its owning task and project,
/// plus the computed snippet.
#[derive(Debug, Clone)]
pub struct SearchResultDto {
    pub project_id: i64,
    pub task_id: i64,
    pub prompt_id: i64,
    pub project_name: String,
    pub task_name: String,
    pub snippet: String,
    pub created_at: String,
}

/// A search row as read from the store, before snippet generation.
#[derive(Debug, Clone)]
pub struct SearchRow {
    pub project_id: i64,
    pub task_id: i64,
    pub prompt_id: i64,
    pub project_name: String,
    pub task_name: String,
    pub content: String,
    pub title: Option<String>,
    pub created_at: String,
}

} // verus!
