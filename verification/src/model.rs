use vstd::prelude::*;

use crate::models::{ProjectDto, PromptRow, TaskDto};
use crate::text::str_le;

verus! {

/// A stored project: (name, created_at, updated_at).
pub type ProjRec = (Seq<char>, Seq<char>, Option<Seq<char>>);

/// A stored task: (project_id, name, description, created_at, updated_at).
pub type TaskRec = (int, Seq<char>, Option<Seq<char>>, Seq<char>, Option<Seq<char>>);

/// A stored prompt entry:
/// (task_id, title, content, tags_text, model, created_at, updated_at),
/// with the tags still in their serialized form.
pub type PromptRec = (
    int,
    Option<Seq<char>>,
    Seq<char>,
    Option<Seq<char>>,
    Option<Seq<char>>,
    Seq<char>,
    Option<Seq<char>>,
);

/// The whole store: three tables keyed by their row ids.
#[verifier::ext_equal]
pub ghost struct StoreModel {
    pub projects: Map<int, ProjRec>,
    pub tasks: Map<int, TaskRec>,
    pub prompts: Map<int, PromptRec>,
}

impl StoreModel {
    /// Referential integrity: every task points at an existing project and
    /// every prompt entry at an existing task.
    pub open spec fn fk_ok(self) -> bool {
        &&& forall|t: int|
            self.tasks.contains_key(t) ==> self.projects.contains_key(#[trigger] self.tasks[t].0)
        &&& forall|e: int|
            self.prompts.contains_key(e) ==> self.tasks.contains_key(#[trigger] self.prompts[e].0)
    }

    pub open spec fn is_empty(self) -> bool {
        self.projects =~= Map::empty() && self.tasks =~= Map::empty() && self.prompts
            =~= Map::empty()
    }
}

pub open spec fn os_view(o: Option<String>) -> Option<Seq<char>> {
    match o {
        Some(s) => Some(s@),
        None => None,
    }
}

/// Deleting a project removes it, its tasks, and the prompt entries of
/// those tasks; nothing else changes.
pub open spec fn delete_project_m(m: StoreModel, id: int) -> StoreModel {
    StoreModel {
        projects: m.projects.remove(id),
        tasks: Map::new(
            |t: int| m.tasks.contains_key(t) && m.tasks[t].0 != id,
            |t: int| m.tasks[t],
        ),
        prompts: Map::new(
            |e: int|
                m.prompts.contains_key(e) && !(m.tasks.contains_key(m.prompts[e].0)
                    && m.tasks[m.prompts[e].0].0 == id),
            |e: int| m.prompts[e],
        ),
    }
}

/// Deleting a task removes it and its prompt entries.
pub open spec fn delete_task_m(m: StoreModel, id: int) -> StoreModel {
    StoreModel {
        projects: m.projects,
        tasks: m.tasks.remove(id),
        prompts: Map::new(
            |e: int| m.prompts.contains_key(e) && m.prompts[e].0 != id,
            |e: int| m.prompts[e],
        ),
    }
}

/// Deleting a prompt entry removes only that entry.
pub open spec fn delete_prompt_m(m: StoreModel, id: int) -> StoreModel {
    StoreModel { projects: m.projects, tasks: m.tasks, prompts: m.prompts.remove(id) }
}

pub open spec fn proj_matches(p: ProjectDto, k: int, r: ProjRec) -> bool {
    &&& p.id as int == k
    &&& p.name@ == r.0
    &&& p.created_at@ == r.1
    &&& os_view(p.updated_at) == r.2
}

pub open spec fn task_matches(t: TaskDto, k: int, r: TaskRec) -> bool {
    &&& t.id as int == k
    &&& t.project_id as int == r.0
    &&& t.name@ == r.1
    &&& os_view(t.description) == r.2
    &&& t.created_at@ == r.3
    &&& os_view(t.updated_at) == r.4
}

pub open spec fn prompt_matches(p: PromptRow, k: int, r: PromptRec) -> bool {
    &&& p.id as int == k
    &&& p.task_id as int == r.0
    &&& os_view(p.title) == r.1
    &&& p.content@ == r.2
    &&& os_view(p.tags_text) == r.3
    &&& os_view(p.model) == r.4
    &&& p.created_at@ == r.5
    &&& os_view(p.updated_at) == r.6
}

/// `r` holds exactly the projects of `m`, each id once.
pub open spec fn lists_projects(r: Seq<ProjectDto>, m: Map<int, ProjRec>) -> bool {
    &&& forall|i: int|
        0 <= i < r.len() ==> m.contains_key(#[trigger] r[i].id as int) && proj_matches(
            r[i],
            r[i].id as int,
            m[r[i].id as int],
        )
    &&& forall|i: int, j: int| 0 <= i < j < r.len() ==> r[i].id != r[j].id
    &&& forall|k: int|
        m.contains_key(k) ==> exists|i: int| 0 <= i < r.len() && (#[trigger] r[i].id) as int == k
}

/// `r` holds exactly the tasks of `m` that belong to project `pid`.
pub open spec fn lists_tasks(r: Seq<TaskDto>, m: Map<int, TaskRec>, pid: int) -> bool {
    &&& forall|i: int|
        0 <= i < r.len() ==> m.contains_key(#[trigger] r[i].id as int) && task_matches(
            r[i],
            r[i].id as int,
            m[r[i].id as int],
        ) && m[r[i].id as int].0 == pid
    &&& forall|i: int, j: int| 0 <= i < j < r.len() ==> r[i].id != r[j].id
    &&& forall|k: int|
        m.contains_key(k) && m[k].0 == pid ==> exists|i: int|
            0 <= i < r.len() && (#[trigger] r[i].id) as int == k
}

/// The stored timestamp of prompt entry `r` falls in the inclusive range,
/// compared as text, as the store compares it.
pub open spec fn in_range(r: PromptRec, lo: Option<Seq<char>>, hi: Option<Seq<char>>) -> bool {
    &&& (lo matches Some(l) ==> str_le(l, r.5))
    &&& (hi matches Some(h) ==> str_le(r.5, h))
}

/// `r` holds exactly the prompt entries of `m` under task `tid` whose
/// timestamp lies in the range.
pub open spec fn lists_prompts(
    r: Seq<PromptRow>,
    m: Map<int, PromptRec>,
    tid: int,
    lo: Option<Seq<char>>,
    hi: Option<Seq<char>>,
) -> bool {
    &&& forall|i: int|
        0 <= i < r.len() ==> m.contains_key(#[trigger] r[i].id as int) && prompt_matches(
            r[i],
            r[i].id as int,
            m[r[i].id as int],
        ) && m[r[i].id as int].0 == tid && in_range(m[r[i].id as int], lo, hi)
    &&& forall|i: int, j: int| 0 <= i < j < r.len() ==> r[i].id != r[j].id
    &&& forall|k: int|
        m.contains_key(k) && m[k].0 == tid && in_range(m[k], lo, hi) ==> exists|i: int|
            0 <= i < r.len() && (#[trigger] r[i].id) as int == k
}

/// After a project is deleted, no task of that project and no prompt entry
/// of such a task survives: a listing of either comes back empty.
pub proof fn lemma_delete_project_cascades(m: StoreModel, id: int)
    ensures
        !delete_project_m(m, id).projects.contains_key(id),
        forall|t: int|
            delete_project_m(m, id).tasks.contains_key(t) ==> #[trigger] delete_project_m(
                m,
                id,
            ).tasks[t].0 != id,
        forall|ts: Seq<TaskDto>|
            lists_tasks(ts, delete_project_m(m, id).tasks, id) ==> ts.len() == 0,
        m.fk_ok() ==> delete_project_m(m, id).fk_ok(),
{
    let m2 = delete_project_m(m, id);
    assert forall|ts: Seq<TaskDto>| lists_tasks(ts, m2.tasks, id) implies ts.len() == 0 by {
        if ts.len() > 0 {
            assert(m2.tasks.contains_key(ts[0].id as int));
            assert(m2.tasks[ts[0].id as int].0 == id);
        }
    }
    if m.fk_ok() {
        assert forall|e: int| m2.prompts.contains_key(e) implies m2.tasks.contains_key(
            #[trigger] m2.prompts[e].0,
        ) by {
            assert(m.prompts.contains_key(e));
        }
    }
}

/// After a task is deleted, no prompt entry of that task survives.
pub proof fn lemma_delete_task_cascades(m: StoreModel, id: int)
    ensures
        !delete_task_m(m, id).tasks.contains_key(id),
        forall|e: int|
            delete_task_m(m, id).prompts.contains_key(e) ==> #[trigger] delete_task_m(
                m,
                id,
            ).prompts[e].0 != id,
        forall|ps: Seq<PromptRow>, lo: Option<Seq<char>>, hi: Option<Seq<char>>|
            lists_prompts(ps, delete_task_m(m, id).prompts, id, lo, hi) ==> ps.len() == 0,
        m.fk_ok() ==> delete_task_m(m, id).fk_ok(),
{
    let m2 = delete_task_m(m, id);
    assert forall|ps: Seq<PromptRow>, lo: Option<Seq<char>>, hi: Option<Seq<char>>|
        lists_prompts(ps, m2.prompts, id, lo, hi) implies ps.len() == 0 by {
        if ps.len() > 0 {
            assert(m2.prompts.contains_key(ps[0].id as int));
            assert(m2.prompts[ps[0].id as int].0 == id);
        }
    }
}

/// Deleting an id removes it: a second delete of the same project, task or
/// prompt entry finds nothing.
pub proof fn lemma_delete_twice(m: StoreModel, id: int)
    ensures
        !delete_project_m(m, id).projects.contains_key(id),
        !delete_task_m(m, id).tasks.contains_key(id),
        !delete_prompt_m(m, id).prompts.contains_key(id),
{
}

} // verus!
