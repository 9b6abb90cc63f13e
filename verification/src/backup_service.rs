use vstd::prelude::*;

use crate::error::AppError;
use crate::model::{os_view, ProjRec, PromptRec, StoreModel, TaskRec};
use crate::prompt_repository::otags_view;
use crate::store::{
    admin_kept, begin_tx, commit_tx, db, delete_all_rows, in_tx, insert_project, insert_prompt,
    insert_task, last_insert_id, now_rfc3339, projects_of, prompts_of, rollback_tx, schema_ok,
    select_projects_asc, select_prompts_asc, select_tasks_asc, stmt_aborted, tasks_of,
};
use crate::tags::{enc_tags, encode_tags};

verus! {

/// One prompt entry of the portable document.
#[derive(Debug, Clone)]
pub struct ExportPrompt {
    pub title: Option<String>,
    pub content: String,
    pub tags: Option<Vec<String>>,
    pub model: Option<String>,
    pub created_at: String,
    pub updated_at: Option<String>,
}

/// One task of the portable document, with its prompt entries.
#[derive(Debug, Clone)]
pub struct ExportTask {
    pub name: String,
    pub description: Option<String>,
    pub created_at: String,
    pub updated_at: Option<String>,
    pub prompts: Vec<ExportPrompt>,
}

/// One project of the portable document, with its tasks.
#[derive(Debug, Clone)]
pub struct ExportProject {
    pub name: String,
    pub created_at: String,
    pub updated_at: Option<String>,
    pub tasks: Vec<ExportTask>,
}

/// The whole portable document. Store-assigned ids are deliberately
/// absent: only the hierarchy and the content fields travel, and import
/// assigns fresh ids.
#[derive(Debug, Clone)]
pub struct ExportData {
    pub version: i32,
    pub exported_at: String,
    pub projects: Vec<ExportProject>,
}

/// (title, content, tags, model, created_at, updated_at)
pub type PromptV = (
    Option<Seq<char>>,
    Seq<char>,
    Option<Seq<Seq<char>>>,
    Option<Seq<char>>,
    Seq<char>,
    Option<Seq<char>>,
);

/// (name, description, created_at, updated_at, prompts)
pub type TaskV = (Seq<char>, Option<Seq<char>>, Seq<char>, Option<Seq<char>>, Seq<PromptV>);

/// (name, created_at, updated_at, tasks)
pub type ProjV = (Seq<char>, Seq<char>, Option<Seq<char>>, Seq<TaskV>);

pub open spec fn prompt_v(p: ExportPrompt) -> PromptV {
    (
        os_view(p.title),
        p.content@,
        otags_view(p.tags),
        os_view(p.model),
        p.created_at@,
        os_view(p.updated_at),
    )
}

pub open spec fn task_v(t: ExportTask) -> TaskV {
    (
        t.name@,
        os_view(t.description),
        t.created_at@,
        os_view(t.updated_at),
        t.prompts@.map_values(|p: ExportPrompt| prompt_v(p)),
    )
}

pub open spec fn proj_v(p: ExportProject) -> ProjV {
    (p.name@, p.created_at@, os_view(p.updated_at), p.tasks@.map_values(|t: ExportTask| task_v(t)))
}

/// The document as mathematics: the hierarchy with every field, ids gone.
pub open spec fn doc_view(d: ExportData) -> Seq<ProjV> {
    d.projects@.map_values(|p: ExportProject| proj_v(p))
}

/// Each level of the document walks its rows in creation-time order,
/// oldest first, compared as text, as the export queries order them.
pub open spec fn prompts_ascending(ps: Seq<PromptV>) -> bool {
    forall|y1: int, y2: int|
        0 <= y1 < y2 < ps.len() ==> crate::text::str_le(ps[y1].4, ps[y2].4)
}

pub open spec fn tasks_ascending(ts: Seq<TaskV>) -> bool {
    forall|x1: int, x2: int|
        0 <= x1 < x2 < ts.len() ==> crate::text::str_le(ts[x1].2, ts[x2].2)
}

pub open spec fn doc_ordered(d: Seq<ProjV>) -> bool {
    &&& forall|j1: int, j2: int|
        0 <= j1 < j2 < d.len() ==> crate::text::str_le(d[j1].1, d[j2].1)
    &&& forall|j: int| 0 <= j < d.len() ==> tasks_ascending((#[trigger] d[j]).3)
    &&& forall|j: int, x: int|
        0 <= j < d.len() && 0 <= x < d[j].3.len() ==> prompts_ascending((#[trigger] d[j].3[x]).4)
}

pub open spec fn stored_tags(o: Option<Seq<Seq<char>>>) -> Option<Seq<char>> {
    match o {
        Some(ts) => Some(enc_tags(ts)),
        None => None,
    }
}

pub open spec fn proj_rec_of(p: ProjV) -> ProjRec {
    (p.0, p.1, p.2)
}

pub open spec fn task_rec_of(pid: int, t: TaskV) -> TaskRec {
    (pid, t.0, t.1, t.2, t.3)
}

pub open spec fn prompt_rec_of(tid: int, p: PromptV) -> PromptRec {
    (tid, p.0, p.1, stored_tags(p.2), p.3, p.4, p.5)
}

pub open spec fn ids_view(v: Seq<i64>) -> Seq<int> {
    v.map_values(|x: i64| x as int)
}

/// The store holds exactly the document's hierarchy, under the given id
/// assignment: each level's rows are the document's entries under
/// distinct ids, children pointing at their parent's assigned id, and
/// nothing else is in any table.
pub open spec fn realizes_w(
    m: StoreModel,
    d: Seq<ProjV>,
    pids: Seq<int>,
    tids: Seq<Seq<int>>,
    eids: Seq<Seq<Seq<int>>>,
) -> bool {
    &&& pids.len() == d.len()
    &&& tids.len() == d.len()
    &&& eids.len() == d.len()
    &&& forall|j: int|
        0 <= j < d.len() ==> (#[trigger] tids[j]).len() == d[j].3.len() && eids[j].len()
            == d[j].3.len()
    &&& forall|j: int, x: int|
        0 <= j < d.len() && 0 <= x < d[j].3.len() ==> (#[trigger] eids[j][x]).len()
            == d[j].3[x].4.len()
    &&& forall|j: int|
        0 <= j < d.len() ==> m.projects.contains_key(#[trigger] pids[j]) && m.projects[pids[j]]
            == proj_rec_of(d[j])
    &&& forall|j1: int, j2: int| 0 <= j1 < j2 < d.len() ==> pids[j1] != pids[j2]
    &&& forall|k: int|
        m.projects.contains_key(k) ==> exists|j: int| 0 <= j < d.len() && #[trigger] pids[j] == k
    &&& forall|j: int, x: int|
        0 <= j < d.len() && 0 <= x < d[j].3.len() ==> m.tasks.contains_key(#[trigger] tids[j][x])
            && m.tasks[tids[j][x]] == task_rec_of(pids[j], d[j].3[x])
    &&& forall|j1: int, x1: int, j2: int, x2: int|
        0 <= j1 < d.len() && 0 <= x1 < d[j1].3.len() && 0 <= j2 < d.len() && 0 <= x2
            < d[j2].3.len() && (#[trigger] tids[j1][x1]) == (#[trigger] tids[j2][x2]) ==> j1 == j2
            && x1 == x2
    &&& forall|k: int|
        m.tasks.contains_key(k) ==> exists|j: int, x: int|
            0 <= j < d.len() && 0 <= x < d[j].3.len() && (#[trigger] tids[j][x]) == k
    &&& forall|j: int, x: int, y: int|
        0 <= j < d.len() && 0 <= x < d[j].3.len() && 0 <= y < d[j].3[x].4.len()
            ==> m.prompts.contains_key(#[trigger] eids[j][x][y]) && m.prompts[eids[j][x][y]]
            == prompt_rec_of(tids[j][x], d[j].3[x].4[y])
    &&& forall|j1: int, x1: int, y1: int, j2: int, x2: int, y2: int|
        0 <= j1 < d.len() && 0 <= x1 < d[j1].3.len() && 0 <= y1 < d[j1].3[x1].4.len() && 0 <= j2
            < d.len() && 0 <= x2 < d[j2].3.len() && 0 <= y2 < d[j2].3[x2].4.len() && (
        #[trigger] eids[j1][x1][y1]) == (#[trigger] eids[j2][x2][y2]) ==> j1 == j2 && x1 == x2 && y1
            == y2
    &&& forall|k: int|
        m.prompts.contains_key(k) ==> exists|j: int, x: int, y: int|
            0 <= j < d.len() && 0 <= x < d[j].3.len() && 0 <= y < d[j].3[x].4.len() && (
            #[trigger] eids[j][x][y]) == k
}

/// The store holds exactly the document's hierarchy under some fresh id
/// assignment.
pub open spec fn realizes(m: StoreModel, d: Seq<ProjV>) -> bool {
    exists|pids: Seq<int>, tids: Seq<Seq<int>>, eids: Seq<Seq<Seq<int>>>|
        realizes_w(m, d, pids, tids, eids)
}

/// Like `realizes_w`, but a stored prompt row's tags column is compared
/// through what it denotes: the document carries the decoded tags, as
/// export writes them. A store freshly built by import satisfies the
/// stricter `realizes_w`; any store satisfies this one for its own export.
pub open spec fn describes_w(
    m: StoreModel,
    d: Seq<ProjV>,
    pids: Seq<int>,
    tids: Seq<Seq<int>>,
    eids: Seq<Seq<Seq<int>>>,
) -> bool {
    &&& pids.len() == d.len()
    &&& tids.len() == d.len()
    &&& eids.len() == d.len()
    &&& forall|j: int|
        0 <= j < d.len() ==> (#[trigger] tids[j]).len() == d[j].3.len() && eids[j].len()
            == d[j].3.len()
    &&& forall|j: int, x: int|
        0 <= j < d.len() && 0 <= x < d[j].3.len() ==> (#[trigger] eids[j][x]).len()
            == d[j].3[x].4.len()
    &&& forall|j: int|
        0 <= j < d.len() ==> m.projects.contains_key(#[trigger] pids[j]) && m.projects[pids[j]]
            == proj_rec_of(d[j])
    &&& forall|j1: int, j2: int| 0 <= j1 < j2 < d.len() ==> pids[j1] != pids[j2]
    &&& forall|k: int|
        m.projects.contains_key(k) ==> exists|j: int| 0 <= j < d.len() && #[trigger] pids[j] == k
    &&& forall|j: int, x: int|
        0 <= j < d.len() && 0 <= x < d[j].3.len() ==> m.tasks.contains_key(#[trigger] tids[j][x])
            && m.tasks[tids[j][x]] == task_rec_of(pids[j], d[j].3[x])
    &&& forall|j1: int, x1: int, j2: int, x2: int|
        0 <= j1 < d.len() && 0 <= x1 < d[j1].3.len() && 0 <= j2 < d.len() && 0 <= x2
            < d[j2].3.len() && (#[trigger] tids[j1][x1]) == (#[trigger] tids[j2][x2]) ==> j1 == j2
            && x1 == x2
    &&& forall|k: int|
        m.tasks.contains_key(k) ==> exists|j: int, x: int|
            0 <= j < d.len() && 0 <= x < d[j].3.len() && (#[trigger] tids[j][x]) == k
    &&& forall|j: int, x: int, y: int|
        0 <= j < d.len() && 0 <= x < d[j].3.len() && 0 <= y < d[j].3[x].4.len()
            ==> m.prompts.contains_key(#[trigger] eids[j][x][y]) && m.prompts[eids[j][x][y]].0
            == tids[j][x] && stored_prompt_matches(m.prompts[eids[j][x][y]], d[j].3[x].4[y])
    &&& forall|j1: int, x1: int, y1: int, j2: int, x2: int, y2: int|
        0 <= j1 < d.len() && 0 <= x1 < d[j1].3.len() && 0 <= y1 < d[j1].3[x1].4.len() && 0 <= j2
            < d.len() && 0 <= x2 < d[j2].3.len() && 0 <= y2 < d[j2].3[x2].4.len() && (
        #[trigger] eids[j1][x1][y1]) == (#[trigger] eids[j2][x2][y2]) ==> j1 == j2 && x1 == x2 && y1
            == y2
    &&& forall|k: int|
        m.prompts.contains_key(k) ==> exists|j: int, x: int, y: int|
            0 <= j < d.len() && 0 <= x < d[j].3.len() && 0 <= y < d[j].3[x].4.len() && (
            #[trigger] eids[j][x][y]) == k
}

/// The store holds exactly the document's hierarchy, tags compared by
/// what their stored text denotes.
pub open spec fn describes(m: StoreModel, d: Seq<ProjV>) -> bool {
    exists|pids: Seq<int>, tids: Seq<Seq<int>>, eids: Seq<Seq<Seq<int>>>|
        describes_w(m, d, pids, tids, eids)
}

/// A store that realizes a document also describes it: the canonical tag
/// text import writes decodes back to exactly the document's tags.
pub proof fn lemma_realizes_describes(m: StoreModel, d: Seq<ProjV>)
    requires
        realizes(m, d),
    ensures
        describes(m, d),
{
    let (pids, tids, eids): (Seq<int>, Seq<Seq<int>>, Seq<Seq<Seq<int>>>) = choose|
        pids: Seq<int>,
        tids: Seq<Seq<int>>,
        eids: Seq<Seq<Seq<int>>>,
    | realizes_w(m, d, pids, tids, eids);
    assert forall|j: int, x: int, y: int|
        0 <= j < d.len() && 0 <= x < d[j].3.len() && 0 <= y < d[j].3[x].4.len()
            implies m.prompts.contains_key(#[trigger] eids[j][x][y]) && m.prompts[eids[j][x][y]].0
            == tids[j][x] && stored_prompt_matches(m.prompts[eids[j][x][y]], d[j].3[x].4[y]) by {
        let p = d[j].3[x].4[y];
        match p.2 {
            Some(ts) => crate::tags::lemma_tags_roundtrip(ts),
            None => (),
        }
    }
    assert(describes_w(m, d, pids, tids, eids));
}

/// Two stores carry the same hierarchy when one document describes both:
/// the same names, descriptions, contents, tags, models and timestamps
/// in the same parent-child structure, ids aside. Export then import
/// yields exactly this relation between the old and the new store.
pub open spec fn same_hierarchy(m0: StoreModel, m1: StoreModel) -> bool {
    exists|d: Seq<ProjV>| describes(m0, d) && describes(m1, d)
}

/// Round trip: a store whose export is the document `d`, and the store
/// that importing `d` leaves behind, carry the same hierarchy — the same
/// names, descriptions, contents, tags, models and timestamps in the same
/// parent-child structure, only the ids assigned afresh.
pub proof fn lemma_round_trip_same_hierarchy(m0: StoreModel, m1: StoreModel, d: Seq<ProjV>)
    requires
        describes(m0, d),
        realizes(m1, d),
    ensures
        same_hierarchy(m0, m1),
{
    lemma_realizes_describes(m1, d);
}

fn insert_prompts_for(
    conn: &mut rusqlite::Connection,
    tid: i64,
    prompts: &Vec<ExportPrompt>,
) -> (r: Result<Vec<i64>, AppError>)
    requires
        schema_ok(*old(conn)),
    ensures
        r is Ok ==> admin_kept(*old(conn), *final(conn)) && projects_of(*final(conn))
            == projects_of(*old(conn)) && tasks_of(*final(conn)) == tasks_of(*old(conn)),
        r is Err ==> admin_kept(*old(conn), *final(conn)) || stmt_aborted(
            *old(conn),
            *final(conn),
        ),
        r matches Err(e) ==> e is DbError,
        r matches Ok(ids) ==> ({
            let m0 = prompts_of(*old(conn));
            let m1 = prompts_of(*final(conn));
            let pv = prompts@.map_values(|p: ExportPrompt| prompt_v(p));
            &&& ids@.len() == prompts@.len()
            &&& forall|y: int|
                0 <= y < pv.len() ==> !m0.contains_key(ids@[y] as int) && m1.contains_key(
                    #[trigger] ids@[y] as int,
                ) && m1[ids@[y] as int] == prompt_rec_of(tid as int, pv[y])
            &&& forall|y1: int, y2: int| 0 <= y1 < y2 < pv.len() ==> ids@[y1] != ids@[y2]
            &&& forall|k: int|
                m1.contains_key(k) ==> m0.contains_key(k) || exists|y: int|
                    0 <= y < pv.len() && (#[trigger] ids@[y]) as int == k
            &&& forall|k: int| m0.contains_key(k) ==> m1.contains_key(k) && m1[k] == m0[k]
        }),
{
    let ghost pv = prompts@.map_values(|p: ExportPrompt| prompt_v(p));
    let mut ids: Vec<i64> = Vec::new();
    let mut y: usize = 0;
    while y < prompts.len()
        invariant
            schema_ok(*conn),
            admin_kept(*old(conn), *conn),
            projects_of(*conn) == projects_of(*old(conn)),
            tasks_of(*conn) == tasks_of(*old(conn)),
            pv == prompts@.map_values(|p: ExportPrompt| prompt_v(p)),
            y <= prompts@.len(),
            ids@.len() == y,
            forall|z: int|
                0 <= z < y ==> !prompts_of(*old(conn)).contains_key(ids@[z] as int) && prompts_of(
                    *conn,
                ).contains_key(#[trigger] ids@[z] as int) && prompts_of(*conn)[ids@[z] as int]
                    == prompt_rec_of(tid as int, pv[z]),
            forall|z1: int, z2: int| 0 <= z1 < z2 < y ==> ids@[z1] != ids@[z2],
            forall|k: int|
                prompts_of(*conn).contains_key(k) ==> prompts_of(*old(conn)).contains_key(k)
                    || exists|z: int| 0 <= z < y && (#[trigger] ids@[z]) as int == k,
            forall|k: int| #![trigger prompts_of(*old(conn)).contains_key(k)]
                prompts_of(*old(conn)).contains_key(k) ==> prompts_of(*conn).contains_key(k)
                    && prompts_of(*conn)[k] == prompts_of(*old(conn))[k],
        decreases prompts@.len() - y,
    {
        let ghost before = prompts_of(*conn);
        let p = &prompts[y];
        let tags_text: Option<String> = match &p.tags {
            Some(v) => Some(encode_tags(v)),
            None => None,
        };
        assert(os_view(tags_text) == stored_tags(otags_view(p.tags)));
        insert_prompt(
            conn,
            tid,
            &p.title,
            p.content.as_str(),
            &tags_text,
            &p.model,
            p.created_at.as_str(),
            &p.updated_at,
        )?;
        let nid = last_insert_id(conn);
        proof {
            assert(pv[y as int] == prompt_v(prompts@[y as int]));
        }
        let ghost ids0 = ids@;
        ids.push(nid);
        proof {
            assert(ids@ == ids0.push(nid));
            assert(prompts_of(*conn).contains_key(nid as int));
            let nr = prompts_of(*conn)[nid as int];
            assert(nr.0 == tid as int);
            assert(nr.1 == pv[y as int].0);
            assert(nr.2 == pv[y as int].1);
            assert(nr.3 == stored_tags(pv[y as int].2));
            assert(nr.4 == pv[y as int].3);
            assert(nr.5 == pv[y as int].4);
            assert(nr.6 == pv[y as int].5);
            assert(nr =~= prompt_rec_of(tid as int, pv[y as int]));
            assert(prompts_of(*conn) == before.insert(
                nid as int,
                prompt_rec_of(tid as int, pv[y as int]),
            ));
            assert forall|z: int|
                0 <= z < y + 1 implies !prompts_of(*old(conn)).contains_key(
                (#[trigger] ids@[z]) as int,
            ) && prompts_of(*conn).contains_key(ids@[z] as int) && prompts_of(*conn)[ids@[z] as int]
                == prompt_rec_of(tid as int, pv[z]) by {
                if z < y {
                    assert(ids@[z] == ids0[z]);
                    assert(before.contains_key(ids0[z] as int));
                    assert(before[ids0[z] as int] == prompt_rec_of(tid as int, pv[z]));
                    assert(ids0[z] as int != nid as int);
                } else {
                    assert(ids@[y as int] == nid);
                    assert(!before.contains_key(nid as int));
                    if prompts_of(*old(conn)).contains_key(nid as int) {
                        assert(before.contains_key(nid as int));
                    }
                    assert(nr == prompt_rec_of(tid as int, pv[y as int]));
                    assert(prompts_of(*conn)[nid as int] == prompt_rec_of(tid as int, pv[z]));
                }
            }
            assert forall|z1: int, z2: int| 0 <= z1 < z2 < y + 1 implies ids@[z1] != ids@[z2] by {
                if z2 < y {
                    assert(ids@[z1] == ids0[z1] && ids@[z2] == ids0[z2]);
                } else {
                    assert(ids@[z2] == nid && ids@[z1] == ids0[z1]);
                    assert(before.contains_key(ids0[z1] as int));
                }
            }
            assert forall|k: int| prompts_of(*conn).contains_key(k) implies prompts_of(
                *old(conn),
            ).contains_key(k) || (exists|z: int|
                0 <= z < y + 1 && (#[trigger] ids@[z]) as int == k) by {
                if k == nid as int {
                    assert(ids@[y as int] as int == k);
                } else {
                    assert(before.contains_key(k));
                    if !prompts_of(*old(conn)).contains_key(k) {
                        let z0 = choose|z: int| 0 <= z < y && (#[trigger] ids0[z]) as int == k;
                        assert(ids@[z0] == ids0[z0]);
                        assert(ids@[z0] as int == k);
                    }
                }
            }
        }
        y += 1;
    }
    Ok(ids)
}

fn insert_tasks_for(conn: &mut rusqlite::Connection, pid: i64, tasks: &Vec<ExportTask>) -> (r:
    Result<(Vec<i64>, Vec<Vec<i64>>), AppError>)
    requires
        schema_ok(*old(conn)),
    ensures
        r is Ok ==> admin_kept(*old(conn), *final(conn)) && projects_of(*final(conn))
            == projects_of(*old(conn)),
        r is Err ==> admin_kept(*old(conn), *final(conn)) || stmt_aborted(
            *old(conn),
            *final(conn),
        ),
        r matches Err(e) ==> e is DbError,
        r matches Ok(out) ==> ({
            let t0 = tasks_of(*old(conn));
            let t1 = tasks_of(*final(conn));
            let e0 = prompts_of(*old(conn));
            let e1 = prompts_of(*final(conn));
            let tv = tasks@.map_values(|t: ExportTask| task_v(t));
            let tids = out.0;
            let eidss = out.1;
            &&& tids@.len() == tv.len()
            &&& eidss@.len() == tv.len()
            &&& forall|x: int|
                0 <= x < tv.len() ==> (#[trigger] eidss@[x])@.len() == tv[x].4.len()
            &&& forall|x: int|
                0 <= x < tv.len() ==> !t0.contains_key(tids@[x] as int) && t1.contains_key(
                    #[trigger] tids@[x] as int,
                ) && t1[tids@[x] as int] == task_rec_of(pid as int, tv[x])
            &&& forall|x1: int, x2: int| 0 <= x1 < x2 < tv.len() ==> tids@[x1] != tids@[x2]
            &&& forall|k: int|
                t1.contains_key(k) ==> t0.contains_key(k) || exists|x: int|
                    0 <= x < tv.len() && (#[trigger] tids@[x]) as int == k
            &&& forall|k: int| t0.contains_key(k) ==> t1.contains_key(k) && t1[k] == t0[k]
            &&& forall|x: int, y: int|
                0 <= x < tv.len() && 0 <= y < tv[x].4.len() ==> !e0.contains_key(
                    (#[trigger] eidss@[x]@[y]) as int,
                ) && e1.contains_key(eidss@[x]@[y] as int) && e1[eidss@[x]@[y] as int]
                    == prompt_rec_of(tids@[x] as int, tv[x].4[y])
            &&& forall|x1: int, y1: int, x2: int, y2: int|
                0 <= x1 < tv.len() && 0 <= y1 < tv[x1].4.len() && 0 <= x2 < tv.len() && 0 <= y2
                    < tv[x2].4.len() && (#[trigger] eidss@[x1]@[y1]) == (#[trigger] eidss@[x2]@[y2])
                    ==> x1 == x2 && y1 == y2
            &&& forall|k: int|
                e1.contains_key(k) ==> e0.contains_key(k) || exists|x: int, y: int|
                    0 <= x < tv.len() && 0 <= y < tv[x].4.len() && (#[trigger] eidss@[x]@[y]) as int
                        == k
            &&& forall|k: int| e0.contains_key(k) ==> e1.contains_key(k) && e1[k] == e0[k]
        }),
{
    let ghost tv = tasks@.map_values(|t: ExportTask| task_v(t));
    let mut tids: Vec<i64> = Vec::new();
    let mut eidss: Vec<Vec<i64>> = Vec::new();
    let mut x: usize = 0;
    while x < tasks.len()
        invariant
            schema_ok(*conn),
            admin_kept(*old(conn), *conn),
            projects_of(*conn) == projects_of(*old(conn)),
            tv == tasks@.map_values(|t: ExportTask| task_v(t)),
            x <= tasks@.len(),
            tids@.len() == x,
            eidss@.len() == x,
            forall|z: int| 0 <= z < x ==> (#[trigger] eidss@[z])@.len() == tv[z].4.len(),
            forall|z: int|
                0 <= z < x ==> !tasks_of(*old(conn)).contains_key(tids@[z] as int) && tasks_of(
                    *conn,
                ).contains_key(#[trigger] tids@[z] as int) && tasks_of(*conn)[tids@[z] as int]
                    == task_rec_of(pid as int, tv[z]),
            forall|z1: int, z2: int| 0 <= z1 < z2 < x ==> tids@[z1] != tids@[z2],
            forall|k: int|
                tasks_of(*conn).contains_key(k) ==> tasks_of(*old(conn)).contains_key(k) || exists|
                    z: int,
                |
                    0 <= z < x && (#[trigger] tids@[z]) as int == k,
            forall|k: int| #![trigger tasks_of(*old(conn)).contains_key(k)]
                tasks_of(*old(conn)).contains_key(k) ==> tasks_of(*conn).contains_key(k)
                    && tasks_of(*conn)[k] == tasks_of(*old(conn))[k],
            forall|z: int, y: int|
                0 <= z < x && 0 <= y < tv[z].4.len() ==> !prompts_of(*old(conn)).contains_key(
                    (#[trigger] eidss@[z]@[y]) as int,
                ) && prompts_of(*conn).contains_key(eidss@[z]@[y] as int) && prompts_of(
                    *conn,
                )[eidss@[z]@[y] as int] == prompt_rec_of(tids@[z] as int, tv[z].4[y]),
            forall|z1: int, y1: int, z2: int, y2: int|
                0 <= z1 < x && 0 <= y1 < tv[z1].4.len() && 0 <= z2 < x && 0 <= y2 < tv[z2].4.len()
                    && (#[trigger] eidss@[z1]@[y1]) == (#[trigger] eidss@[z2]@[y2]) ==> z1 == z2
                    && y1 == y2,
            forall|k: int|
                prompts_of(*conn).contains_key(k) ==> prompts_of(*old(conn)).contains_key(k)
                    || exists|z: int, y: int|
                    0 <= z < x && 0 <= y < tv[z].4.len() && (#[trigger] eidss@[z]@[y]) as int == k,
            forall|k: int| #![trigger prompts_of(*old(conn)).contains_key(k)]
                prompts_of(*old(conn)).contains_key(k) ==> prompts_of(*conn).contains_key(k)
                    && prompts_of(*conn)[k] == prompts_of(*old(conn))[k],
        decreases tasks@.len() - x,
    {
        let ghost tasks_before = tasks_of(*conn);
        let ghost prompts_before = prompts_of(*conn);
        let t = &tasks[x];
        insert_task(conn, pid, t.name.as_str(), &t.description, t.created_at.as_str(), &t.updated_at)?;
        let nid = last_insert_id(conn);
        proof {
            assert(tv[x as int] == task_v(tasks@[x as int]));
            assert(tasks_of(*conn) == tasks_before.insert(
                nid as int,
                task_rec_of(pid as int, tv[x as int]),
            ));
        }
        let pids2 = insert_prompts_for(conn, nid, &t.prompts)?;
        proof {
            assert(tv[x as int].4 == tasks@[x as int].prompts@.map_values(
                |p: ExportPrompt| prompt_v(p),
            ));
        }
        let ghost tids0 = tids@;
        let ghost eidss0 = eidss@;
        let ghost pids2v = pids2@;
        tids.push(nid);
        eidss.push(pids2);
        proof {
            let xi = x as int;
            assert(tids@[xi] == nid);
            assert(eidss@[xi]@ == pids2v);
            assert forall|k: int| tasks_of(*conn).contains_key(k) implies tasks_of(
                *old(conn),
            ).contains_key(k) || (exists|z: int|
                0 <= z < x + 1 && (#[trigger] tids@[z]) as int == k) by {
                if k == nid as int {
                    assert(tids@[xi] as int == k);
                } else {
                    assert(tasks_before.contains_key(k));
                    if !tasks_of(*old(conn)).contains_key(k) {
                        let z0 = choose|z: int| 0 <= z < x && (#[trigger] tids0[z]) as int == k;
                        assert(tids@[z0] as int == k);
                    }
                }
            }
            assert forall|k: int| prompts_of(*conn).contains_key(k) implies prompts_of(
                *old(conn),
            ).contains_key(k) || (exists|z: int, y: int|
                0 <= z < x + 1 && 0 <= y < tv[z].4.len() && (#[trigger] eidss@[z]@[y]) as int
                    == k) by {
                if prompts_before.contains_key(k) {
                    if !prompts_of(*old(conn)).contains_key(k) {
                        let (z0, y0) = choose|z: int, y: int|
                            0 <= z < x && 0 <= y < tv[z].4.len() && (#[trigger] eidss0[z]@[y]) as int
                                == k;
                        assert(eidss@[z0]@[y0] as int == k);
                    }
                } else {
                    let y0 = choose|y: int|
                        0 <= y < tv[xi].4.len() && (#[trigger] pids2v[y]) as int == k;
                    assert(eidss@[xi]@[y0] as int == k);
                }
            }
        }
        x += 1;
    }
    Ok((tids, eidss))
}

/// Inserts the document's hierarchy into the (emptied) store, capturing
/// each assigned id for the level below.
fn insert_document(conn: &mut rusqlite::Connection, data: &ExportData) -> (r: Result<(), AppError>)
    requires
        schema_ok(*old(conn)),
        db(*old(conn)).is_empty(),
    ensures
        r is Ok ==> admin_kept(*old(conn), *final(conn)) && realizes(
            db(*final(conn)),
            doc_view(*data),
        ),
        r is Err ==> admin_kept(*old(conn), *final(conn)) || stmt_aborted(
            *old(conn),
            *final(conn),
        ),
        r matches Err(e) ==> e is DbError,
{
    let ghost d = doc_view(*data);
    let mut pids: Vec<i64> = Vec::new();
    let mut tidss: Vec<Vec<i64>> = Vec::new();
    let mut eidsss: Vec<Vec<Vec<i64>>> = Vec::new();
    let mut j: usize = 0;
    while j < data.projects.len()
        invariant
            schema_ok(*conn),
            admin_kept(*old(conn), *conn),
            d == doc_view(*data),
            j <= data.projects@.len(),
            d.len() == data.projects@.len(),
            pids@.len() == j,
            tidss@.len() == j,
            eidsss@.len() == j,
            forall|z: int| 0 <= z < j ==> (#[trigger] tidss@[z])@.len() == d[z].3.len(),
            forall|z: int| 0 <= z < j ==> (#[trigger] eidsss@[z])@.len() == d[z].3.len(),
            forall|z: int, x: int|
                0 <= z < j && 0 <= x < d[z].3.len() ==> (#[trigger] eidsss@[z]@[x])@.len()
                    == d[z].3[x].4.len(),
            forall|z: int|
                0 <= z < j ==> projects_of(*conn).contains_key(#[trigger] pids@[z] as int)
                    && projects_of(*conn)[pids@[z] as int] == proj_rec_of(d[z]),
            forall|z1: int, z2: int| 0 <= z1 < z2 < j ==> pids@[z1] != pids@[z2],
            forall|k: int|
                projects_of(*conn).contains_key(k) ==> exists|z: int|
                    0 <= z < j && (#[trigger] pids@[z]) as int == k,
            forall|z: int, x: int|
                0 <= z < j && 0 <= x < d[z].3.len() ==> tasks_of(*conn).contains_key(
                    (#[trigger] tidss@[z]@[x]) as int,
                ) && tasks_of(*conn)[tidss@[z]@[x] as int] == task_rec_of(
                    pids@[z] as int,
                    d[z].3[x],
                ),
            forall|z1: int, x1: int, z2: int, x2: int|
                0 <= z1 < j && 0 <= x1 < d[z1].3.len() && 0 <= z2 < j && 0 <= x2 < d[z2].3.len()
                    && (#[trigger] tidss@[z1]@[x1]) == (#[trigger] tidss@[z2]@[x2]) ==> z1 == z2
                    && x1 == x2,
            forall|k: int|
                tasks_of(*conn).contains_key(k) ==> exists|z: int, x: int|
                    0 <= z < j && 0 <= x < d[z].3.len() && (#[trigger] tidss@[z]@[x]) as int == k,
            forall|z: int, x: int, y: int|
                0 <= z < j && 0 <= x < d[z].3.len() && 0 <= y < d[z].3[x].4.len()
                    ==> prompts_of(*conn).contains_key((#[trigger] eidsss@[z]@[x]@[y]) as int)
                    && prompts_of(*conn)[eidsss@[z]@[x]@[y] as int] == prompt_rec_of(
                    tidss@[z]@[x] as int,
                    d[z].3[x].4[y],
                ),
            forall|z1: int, x1: int, y1: int, z2: int, x2: int, y2: int|
                0 <= z1 < j && 0 <= x1 < d[z1].3.len() && 0 <= y1 < d[z1].3[x1].4.len() && 0 <= z2
                    < j && 0 <= x2 < d[z2].3.len() && 0 <= y2 < d[z2].3[x2].4.len() && (
                #[trigger] eidsss@[z1]@[x1]@[y1]) == (#[trigger] eidsss@[z2]@[x2]@[y2]) ==> z1 == z2
                    && x1 == x2 && y1 == y2,
            forall|k: int|
                prompts_of(*conn).contains_key(k) ==> exists|z: int, x: int, y: int|
                    0 <= z < j && 0 <= x < d[z].3.len() && 0 <= y < d[z].3[x].4.len() && (
                    #[trigger] eidsss@[z]@[x]@[y]) as int == k,
        decreases data.projects@.len() - j,
    {
        let ghost projects_before = projects_of(*conn);
        let ghost tasks_before = tasks_of(*conn);
        let ghost prompts_before = prompts_of(*conn);
        let p = &data.projects[j];
        insert_project(conn, p.name.as_str(), p.created_at.as_str(), &p.updated_at)?;
        let nid = last_insert_id(conn);
        proof {
            assert(d[j as int] == proj_v(data.projects@[j as int]));
            assert(projects_of(*conn) == projects_before.insert(nid as int, proj_rec_of(
                d[j as int],
            )));
        }
        let (tids, eidss) = insert_tasks_for(conn, nid, &p.tasks)?;
        proof {
            assert(d[j as int].3 == data.projects@[j as int].tasks@.map_values(
                |t: ExportTask| task_v(t),
            ));
        }
        let ghost pids0 = pids@;
        let ghost tidss0 = tidss@;
        let ghost eidsss0 = eidsss@;
        let ghost tids_v = tids@;
        let ghost eidss_raw = eidss@;
        pids.push(nid);
        tidss.push(tids);
        eidsss.push(eidss);
        proof {
            let ji = j as int;
            assert(pids@[ji] == nid);
            assert forall|k: int| projects_of(*conn).contains_key(k) implies (exists|z: int|
                0 <= z < j + 1 && (#[trigger] pids@[z]) as int == k) by {
                if k == nid as int {
                    assert(pids@[ji] as int == k);
                } else {
                    assert(projects_before.contains_key(k));
                    let z0 = choose|z: int| 0 <= z < j && (#[trigger] pids0[z]) as int == k;
                    assert(pids@[z0] as int == k);
                }
            }
            assert forall|k: int| tasks_of(*conn).contains_key(k) implies (exists|z: int, x: int|
                0 <= z < j + 1 && 0 <= x < d[z].3.len() && (#[trigger] tidss@[z]@[x]) as int
                    == k) by {
                if tasks_before.contains_key(k) {
                    let (z0, x0) = choose|z: int, x: int|
                        0 <= z < j && 0 <= x < d[z].3.len() && (#[trigger] tidss0[z]@[x]) as int
                            == k;
                    assert(tidss@[z0]@[x0] as int == k);
                } else {
                    let x0 = choose|x: int|
                        0 <= x < d[ji].3.len() && (#[trigger] tids_v[x]) as int == k;
                    assert(tidss@[ji]@[x0] as int == k);
                }
            }
            assert forall|k: int| prompts_of(*conn).contains_key(k) implies (exists|
                z: int,
                x: int,
                y: int,
            |
                0 <= z < j + 1 && 0 <= x < d[z].3.len() && 0 <= y < d[z].3[x].4.len() && (
                #[trigger] eidsss@[z]@[x]@[y]) as int == k) by {
                if prompts_before.contains_key(k) {
                    let (z0, x0, y0) = choose|z: int, x: int, y: int|
                        0 <= z < j && 0 <= x < d[z].3.len() && 0 <= y < d[z].3[x].4.len() && (
                        #[trigger] eidsss0[z]@[x]@[y]) as int == k;
                    assert(eidsss@[z0]@[x0]@[y0] as int == k);
                } else {
                    let (x0, y0) = choose|x: int, y: int|
                        0 <= x < d[ji].3.len() && 0 <= y < d[ji].3[x].4.len() && (
                        #[trigger] eidss_raw[x]@[y]) as int == k;
                    assert(eidsss@[ji]@ == eidss_raw);
                    assert(eidsss@[ji]@[x0]@[y0] as int == k);
                }
            }
        }
        j += 1;
    }
    proof {
        let m = db(*conn);
        let n = d.len();
        let pw = ids_view(pids@);
        let tw = tidss@.map_values(|v: Vec<i64>| ids_view(v@));
        let ew = eidsss@.map_values(
            |vv: Vec<Vec<i64>>| vv@.map_values(|v: Vec<i64>| ids_view(v@)),
        );
        assert(pw.len() == n && tw.len() == n && ew.len() == n);
        assert forall|j: int| 0 <= j < n implies (#[trigger] pw[j]) == pids@[j] as int by {}
        assert forall|j: int, x: int|
            0 <= j < n && 0 <= x < d[j].3.len() implies (#[trigger] tw[j][x]) == tidss@[j]@[x] as int by {
            assert(tw[j] == ids_view(tidss@[j]@));
        }
        assert forall|j: int| 0 <= j < n implies (#[trigger] tw[j]).len() == d[j].3.len() by {
            assert(tw[j] == ids_view(tidss@[j]@));
        }
        assert forall|j: int| 0 <= j < n implies (#[trigger] ew[j]).len() == d[j].3.len() by {
            assert(ew[j] == eidsss@[j]@.map_values(|v: Vec<i64>| ids_view(v@)));
        }
        assert forall|j: int, x: int|
            0 <= j < n && 0 <= x < d[j].3.len() implies (#[trigger] ew[j][x]).len()
                == d[j].3[x].4.len() by {
            assert(ew[j] == eidsss@[j]@.map_values(|v: Vec<i64>| ids_view(v@)));
            assert(ew[j][x] == ids_view(eidsss@[j]@[x]@));
        }
        assert forall|j: int, x: int, y: int|
            0 <= j < n && 0 <= x < d[j].3.len() && 0 <= y < d[j].3[x].4.len() implies (
        #[trigger] ew[j][x][y]) == eidsss@[j]@[x]@[y] as int by {
            assert(ew[j] == eidsss@[j]@.map_values(|v: Vec<i64>| ids_view(v@)));
            assert(ew[j][x] == ids_view(eidsss@[j]@[x]@));
        }
        assert forall|j: int|
            0 <= j < n implies m.projects.contains_key(#[trigger] pw[j]) && m.projects[pw[j]]
                == proj_rec_of(d[j]) by {
            assert(pw[j] == pids@[j] as int);
        }
        assert forall|k: int| m.projects.contains_key(k) implies (exists|j: int|
            0 <= j < n && #[trigger] pw[j] == k) by {
            let z0 = choose|z: int| 0 <= z < n && (#[trigger] pids@[z]) as int == k;
            assert(pw[z0] == k);
        }
        assert forall|j: int, x: int|
            0 <= j < n && 0 <= x < d[j].3.len() implies m.tasks.contains_key(#[trigger] tw[j][x])
                && m.tasks[tw[j][x]] == task_rec_of(pw[j], d[j].3[x]) by {
            assert(tw[j][x] == tidss@[j]@[x] as int && pw[j] == pids@[j] as int);
        }
        assert forall|k: int| m.tasks.contains_key(k) implies (exists|j: int, x: int|
            0 <= j < n && 0 <= x < d[j].3.len() && (#[trigger] tw[j][x]) == k) by {
            let (z0, x0) = choose|z: int, x: int|
                0 <= z < n && 0 <= x < d[z].3.len() && (#[trigger] tidss@[z]@[x]) as int == k;
            assert(tw[z0][x0] == k);
        }
        assert forall|j: int, x: int, y: int|
            0 <= j < n && 0 <= x < d[j].3.len() && 0 <= y < d[j].3[x].4.len()
                implies m.prompts.contains_key(#[trigger] ew[j][x][y]) && m.prompts[ew[j][x][y]]
                == prompt_rec_of(tw[j][x], d[j].3[x].4[y]) by {
            assert(ew[j][x][y] == eidsss@[j]@[x]@[y] as int && tw[j][x] == tidss@[j]@[x] as int);
        }
        assert forall|k: int| m.prompts.contains_key(k) implies (exists|j: int, x: int, y: int|
            0 <= j < n && 0 <= x < d[j].3.len() && 0 <= y < d[j].3[x].4.len() && (
            #[trigger] ew[j][x][y]) == k) by {
            let (z0, x0, y0) = choose|z: int, x: int, y: int|
                0 <= z < n && 0 <= x < d[z].3.len() && 0 <= y < d[z].3[x].4.len() && (
                #[trigger] eidsss@[z]@[x]@[y]) as int == k;
            assert(ew[z0][x0][y0] == k);
        }
        assert(realizes_w(m, d, pw, tw, ew));
    }
    Ok(())
}

/// Replaces the whole store with the document's hierarchy, inside one
/// transaction: first every prompt entry, task and project is deleted,
/// then the document is inserted with fresh ids. If any step fails the
/// transaction is rolled back and the store is exactly as it was.
pub fn import_replace(conn: &mut rusqlite::Connection, data: &ExportData) -> (r: Result<
    (),
    AppError,
>)
    requires
        schema_ok(*old(conn)),
        !in_tx(*old(conn)),
    ensures
        schema_ok(*final(conn)),
        !in_tx(*final(conn)),
        r matches Err(e) ==> e is DbError,
        r is Err ==> db(*final(conn)) == db(*old(conn)),
        r is Ok ==> realizes(db(*final(conn)), doc_view(*data)),
{
    begin_tx(conn)?;
    match delete_all_rows(conn) {
        Ok(()) => {},
        Err(e) => {
            rollback_tx(conn);
            return Err(e);
        },
    }
    proof {
        assert(db(*conn).projects =~= Map::<int, ProjRec>::empty());
    }
    match insert_document(conn, data) {
        Ok(()) => {},
        Err(e) => {
            rollback_tx(conn);
            return Err(e);
        },
    }
    match commit_tx(conn) {
        Ok(()) => Ok(()),
        Err(e) => {
            rollback_tx(conn);
            Err(e)
        },
    }
}

/// A stored prompt row carries a document prompt's fields: plain fields
/// equal; the document's tags are what the stored text denotes.
pub open spec fn stored_prompt_matches(r: PromptRec, p: PromptV) -> bool {
    &&& r.1 == p.0
    &&& r.2 == p.1
    &&& crate::prompt_repository::decoded_tags(r.3) == p.2
    &&& r.4 == p.3
    &&& r.5 == p.4
    &&& r.6 == p.5
}

fn export_prompts_of_task(conn: &rusqlite::Connection, task_id: i64) -> (r: Result<
    (Vec<ExportPrompt>, Ghost<Seq<int>>),
    AppError,
>)
    requires
        schema_ok(*conn),
    ensures
        r matches Err(e) ==> e is DbError,
        r matches Ok(out) ==> ({
            let m = prompts_of(*conn);
            let v = out.0;
            let eids = out.1@;
            &&& eids.len() == v@.len()
            &&& (forall|y: int|
                0 <= y < v@.len() ==> m.contains_key(#[trigger] eids[y]) && m[eids[y]].0
                    == task_id as int && stored_prompt_matches(m[eids[y]], prompt_v(v@[y])))
            &&& (forall|y1: int, y2: int| 0 <= y1 < y2 < v@.len() ==> eids[y1] != eids[y2])
            &&& (forall|k: int|
                m.contains_key(k) && (#[trigger] m[k]).0 == task_id as int ==> exists|y: int|
                    0 <= y < v@.len() && #[trigger] eids[y] == k)
            &&& prompts_ascending(v@.map_values(|p: ExportPrompt| prompt_v(p)))
        }),
{
    let rows = select_prompts_asc(conn, task_id)?;
    let ghost m = prompts_of(*conn);
    let ghost eids = Seq::new(rows@.len(), |z: int| rows@[z].id as int);
    let mut out: Vec<ExportPrompt> = Vec::new();
    let mut y: usize = 0;
    while y < rows.len()
        invariant
            schema_ok(*conn),
            m == prompts_of(*conn),
            eids == Seq::new(rows@.len(), |z: int| rows@[z].id as int),
            y <= rows@.len(),
            out@.len() == y,
            crate::model::lists_prompts(rows@, m, task_id as int, None, None),
            forall|z: int|
                0 <= z < y ==> stored_prompt_matches(
                    m[eids[z]],
                    prompt_v(#[trigger] out@[z]),
                ),
            forall|z: int|
                0 <= z < y ==> prompt_v(#[trigger] out@[z]).4 == rows@[z].created_at@,
        decreases rows@.len() - y,
    {
        let row = &rows[y];
        let tags: Option<Vec<String>> = match &row.tags_text {
            Some(s) => crate::tags::decode_tags(s.as_str()),
            None => None,
        };
        let title: Option<String> = match &row.title {
            Some(s) => Some(s.clone()),
            None => None,
        };
        let model: Option<String> = match &row.model {
            Some(s) => Some(s.clone()),
            None => None,
        };
        let updated_at: Option<String> = match &row.updated_at {
            Some(s) => Some(s.clone()),
            None => None,
        };
        let ep = ExportPrompt {
            title,
            content: row.content.clone(),
            tags,
            model,
            created_at: row.created_at.clone(),
            updated_at,
        };
        proof {
            assert(eids[y as int] == rows@[y as int].id as int);
            assert(stored_prompt_matches(m[eids[y as int]], prompt_v(ep)));
        }
        out.push(ep);
        y += 1;
    }
    proof {
        assert forall|y1: int, y2: int| 0 <= y1 < y2 < out@.len() implies eids[y1] != eids[y2] by {
            assert(rows@[y1].id != rows@[y2].id);
        }
        assert forall|k: int|
            m.contains_key(k) && (#[trigger] m[k]).0 == task_id as int implies (exists|y2: int|
            0 <= y2 < out@.len() && #[trigger] eids[y2] == k) by {
            let i0 = choose|i: int| 0 <= i < rows@.len() && (#[trigger] rows@[i].id) as int == k;
            assert(eids[i0] == k);
        }
        let pv = out@.map_values(|p: ExportPrompt| prompt_v(p));
        assert forall|y1: int, y2: int|
            0 <= y1 < y2 < pv.len() implies crate::text::str_le(pv[y1].4, pv[y2].4) by {
            assert(pv[y1] == prompt_v(out@[y1]) && pv[y2] == prompt_v(out@[y2]));
            assert(crate::text::str_le(rows@[y1].created_at@, rows@[y2].created_at@));
        }
    }
    Ok((out, Ghost(eids)))
}

/// One exported project agrees with the store under the given witnesses:
/// its fields come from the project row, its tasks are exactly the
/// project's task rows, and their prompts exactly those tasks' rows.
pub open spec fn project_exported(
    m: StoreModel,
    pid: int,
    pv: ProjV,
    tids: Seq<int>,
    eids: Seq<Seq<int>>,
) -> bool {
    &&& m.projects.contains_key(pid)
    &&& proj_rec_of(pv) == m.projects[pid]
    &&& tids.len() == pv.3.len()
    &&& eids.len() == pv.3.len()
    &&& (forall|x: int| 0 <= x < pv.3.len() ==> (#[trigger] eids[x]).len() == pv.3[x].4.len())
    &&& (forall|x: int|
        0 <= x < pv.3.len() ==> m.tasks.contains_key(#[trigger] tids[x]) && m.tasks[tids[x]]
            == task_rec_of(pid, pv.3[x]))
    &&& (forall|x1: int, x2: int| 0 <= x1 < x2 < pv.3.len() ==> tids[x1] != tids[x2])
    &&& (forall|k: int|
        m.tasks.contains_key(k) && (#[trigger] m.tasks[k]).0 == pid ==> exists|x: int|
            0 <= x < pv.3.len() && #[trigger] tids[x] == k)
    &&& (forall|x: int, y: int|
        0 <= x < pv.3.len() && 0 <= y < pv.3[x].4.len() ==> m.prompts.contains_key(
            #[trigger] eids[x][y],
        ) && m.prompts[eids[x][y]].0 == tids[x] && stored_prompt_matches(
            m.prompts[eids[x][y]],
            pv.3[x].4[y],
        ))
    &&& (forall|x1: int, y1: int, x2: int, y2: int|
        0 <= x1 < pv.3.len() && 0 <= y1 < pv.3[x1].4.len() && 0 <= x2 < pv.3.len() && 0 <= y2
            < pv.3[x2].4.len() && (#[trigger] eids[x1][y1]) == (#[trigger] eids[x2][y2]) ==> x1
            == x2 && y1 == y2)
    &&& (forall|k: int|
        m.prompts.contains_key(k) && m.tasks.contains_key(#[trigger] m.prompts[k].0)
            && m.tasks[m.prompts[k].0].0 == pid ==> exists|x: int, y: int|
            0 <= x < pv.3.len() && 0 <= y < pv.3[x].4.len() && (#[trigger] eids[x][y]) == k)
}

/// The exported tasks of one project are exactly the project's stored
/// tasks under the witnessed ids, and their prompts exactly those tasks'
/// stored prompt entries.
pub open spec fn tasks_exported_ok(
    m: StoreModel,
    pid: int,
    tv: Seq<TaskV>,
    tids: Seq<int>,
    eids: Seq<Seq<int>>,
) -> bool {
    &&& tids.len() == tv.len()
    &&& eids.len() == tv.len()
    &&& (forall|x: int| 0 <= x < tv.len() ==> (#[trigger] eids[x]).len() == tv[x].4.len())
    &&& (forall|x: int|
        0 <= x < tv.len() ==> m.tasks.contains_key(#[trigger] tids[x]) && m.tasks[tids[x]]
            == task_rec_of(pid, tv[x]))
    &&& (forall|x1: int, x2: int| 0 <= x1 < x2 < tv.len() ==> tids[x1] != tids[x2])
    &&& (forall|k: int|
        m.tasks.contains_key(k) && (#[trigger] m.tasks[k]).0 == pid ==> exists|x: int|
            0 <= x < tv.len() && #[trigger] tids[x] == k)
    &&& (forall|x: int, y: int|
        0 <= x < tv.len() && 0 <= y < tv[x].4.len() ==> m.prompts.contains_key(
            #[trigger] eids[x][y],
        ) && m.prompts[eids[x][y]].0 == tids[x] && stored_prompt_matches(
            m.prompts[eids[x][y]],
            tv[x].4[y],
        ))
    &&& (forall|x: int, y1: int, y2: int|
        0 <= x < tv.len() && 0 <= y1 < y2 < tv[x].4.len() ==> (#[trigger] eids[x][y1]) != (
        #[trigger] eids[x][y2]))
    &&& (forall|x: int, k: int|
        0 <= x < tv.len() && m.prompts.contains_key(k) && (#[trigger] m.prompts[k]).0 == (
        #[trigger] tids[x]) ==> exists|y: int| 0 <= y < tv[x].4.len() && (#[trigger] eids[x][y]) == k)
    &&& tasks_ascending(tv)
    &&& (forall|x: int| 0 <= x < tv.len() ==> prompts_ascending((#[trigger] tv[x]).4))
}

fn export_tasks_of_project(conn: &rusqlite::Connection, project_id: i64) -> (r: Result<
    (Vec<ExportTask>, Ghost<(Seq<int>, Seq<Seq<int>>)>),
    AppError,
>)
    requires
        schema_ok(*conn),
    ensures
        r matches Err(e) ==> e is DbError,
        r matches Ok(out) ==> tasks_exported_ok(
            db(*conn),
            project_id as int,
            out.0@.map_values(|t: ExportTask| task_v(t)),
            out.1@.0,
            out.1@.1,
        ),
{
    let rows = select_tasks_asc(conn, project_id)?;
    let ghost m = db(*conn);
    let ghost tids = Seq::new(rows@.len(), |z: int| rows@[z].id as int);
    let ghost mut eidss: Seq<Seq<int>> = Seq::empty();
    let mut out: Vec<ExportTask> = Vec::new();
    let mut x: usize = 0;
    while x < rows.len()
        invariant
            schema_ok(*conn),
            m == db(*conn),
            tids == Seq::new(rows@.len(), |z: int| rows@[z].id as int),
            x <= rows@.len(),
            out@.len() == x,
            eidss.len() == x,
            crate::model::lists_tasks(rows@, m.tasks, project_id as int),
            forall|z: int|
                0 <= z < x ==> ({
                    let tvz = task_v(#[trigger] out@[z]);
                    &&& m.tasks[tids[z]] == task_rec_of(project_id as int, tvz)
                    &&& eidss[z].len() == tvz.4.len()
                    &&& (forall|y: int|
                        0 <= y < tvz.4.len() ==> m.prompts.contains_key(#[trigger] eidss[z][y])
                            && m.prompts[eidss[z][y]].0 == tids[z] && stored_prompt_matches(
                            m.prompts[eidss[z][y]],
                            tvz.4[y],
                        ))
                    &&& (forall|y1: int, y2: int|
                        0 <= y1 < y2 < tvz.4.len() ==> eidss[z][y1] != eidss[z][y2])
                    &&& (forall|k: int|
                        m.prompts.contains_key(k) && (#[trigger] m.prompts[k]).0 == tids[z]
                            ==> exists|y: int| 0 <= y < tvz.4.len() && #[trigger] eidss[z][y] == k)
                    &&& prompts_ascending(tvz.4)
                }),
        decreases rows@.len() - x,
    {
        let row = &rows[x];
        let (prompts, peids) = export_prompts_of_task(conn, row.id)?;
        let description: Option<String> = match &row.description {
            Some(s) => Some(s.clone()),
            None => None,
        };
        let updated_at: Option<String> = match &row.updated_at {
            Some(s) => Some(s.clone()),
            None => None,
        };
        let et = ExportTask {
            name: row.name.clone(),
            description,
            created_at: row.created_at.clone(),
            updated_at,
            prompts,
        };
        proof {
            assert(tids[x as int] == rows@[x as int].id as int);
            assert(task_v(et).4 == et.prompts@.map_values(|p: ExportPrompt| prompt_v(p)));
            let tr = m.tasks[tids[x as int]];
            assert(crate::model::task_matches(rows@[x as int], tids[x as int], tr));
            assert(tr =~= task_rec_of(project_id as int, task_v(et)));
            eidss = eidss.push(peids@);
        }
        let ghost pre = out@;
        out.push(et);
        proof {
            assert(out@ == pre.push(et));
            assert forall|z: int|
                0 <= z < x + 1 implies ({
                let tvz = task_v(#[trigger] out@[z]);
                &&& m.tasks[tids[z]] == task_rec_of(project_id as int, tvz)
                &&& eidss[z].len() == tvz.4.len()
                &&& (forall|y: int|
                    0 <= y < tvz.4.len() ==> m.prompts.contains_key(#[trigger] eidss[z][y])
                        && m.prompts[eidss[z][y]].0 == tids[z] && stored_prompt_matches(
                        m.prompts[eidss[z][y]],
                        tvz.4[y],
                    ))
                &&& (forall|y1: int, y2: int|
                    0 <= y1 < y2 < tvz.4.len() ==> eidss[z][y1] != eidss[z][y2])
                &&& (forall|k: int|
                    m.prompts.contains_key(k) && (#[trigger] m.prompts[k]).0 == tids[z] ==> exists|
                        y: int,
                    | 0 <= y < tvz.4.len() && #[trigger] eidss[z][y] == k)
                &&& prompts_ascending(tvz.4)
            }) by {
                if z < x {
                    assert(out@[z] == pre[z]);
                    assert(eidss[z] == eidss.drop_last()[z]);
                } else {
                    assert(out@[z] == et);
                    assert(eidss[z] == peids@);
                }
            }
        }
        x += 1;
    }
    proof {
        assert forall|k: int|
            m.tasks.contains_key(k) && (#[trigger] m.tasks[k]).0 == project_id as int implies (
        exists|x2: int| 0 <= x2 < out@.len() && #[trigger] tids[x2] == k) by {
            let i0 = choose|i: int| 0 <= i < rows@.len() && (#[trigger] rows@[i].id) as int == k;
            assert(tids[i0] == k);
        }
        let tv = out@.map_values(|t: ExportTask| task_v(t));
        assert forall|z: int| 0 <= z < tv.len() implies #[trigger] tv[z] == task_v(out@[z]) by {}
        assert forall|x: int|
            0 <= x < tv.len() implies m.tasks.contains_key(#[trigger] tids[x]) && m.tasks[tids[x]]
                == task_rec_of(project_id as int, tv[x]) && eidss[x].len() == tv[x].4.len() by {
            assert(tv[x] == task_v(out@[x]));
        }
        assert forall|x1: int, x2: int| 0 <= x1 < x2 < tv.len() implies tids[x1] != tids[x2] by {
            assert(rows@[x1].id != rows@[x2].id);
        }
        assert forall|x: int, y: int|
            0 <= x < tv.len() && 0 <= y < tv[x].4.len() implies m.prompts.contains_key(
            #[trigger] eidss[x][y],
        ) && m.prompts[eidss[x][y]].0 == tids[x] && stored_prompt_matches(
            m.prompts[eidss[x][y]],
            tv[x].4[y],
        ) by {
            assert(tv[x] == task_v(out@[x]));
        }
        assert forall|x: int, y1: int, y2: int|
            0 <= x < tv.len() && 0 <= y1 < y2 < tv[x].4.len() implies (#[trigger] eidss[x][y1]) != (
        #[trigger] eidss[x][y2]) by {
            assert(tv[x] == task_v(out@[x]));
        }
        assert forall|x: int, k: int|
            0 <= x < tv.len() && m.prompts.contains_key(k) && (#[trigger] m.prompts[k]).0 == (
        #[trigger] tids[x]) implies (exists|y: int|
            0 <= y < tv[x].4.len() && (#[trigger] eidss[x][y]) == k) by {
            assert(tv[x] == task_v(out@[x]));
        }
        assert forall|x1: int, x2: int|
            0 <= x1 < x2 < tv.len() implies crate::text::str_le(tv[x1].2, tv[x2].2) by {
            assert(tv[x1] == task_v(out@[x1]) && tv[x2] == task_v(out@[x2]));
            assert(tids[x1] == rows@[x1].id as int && tids[x2] == rows@[x2].id as int);
            assert(m.tasks[tids[x1]] == task_rec_of(project_id as int, tv[x1]));
            assert(m.tasks[tids[x2]] == task_rec_of(project_id as int, tv[x2]));
            assert(crate::model::task_matches(rows@[x1], tids[x1], m.tasks[tids[x1]]));
            assert(crate::model::task_matches(rows@[x2], tids[x2], m.tasks[tids[x2]]));
            assert(crate::text::str_le(rows@[x1].created_at@, rows@[x2].created_at@));
        }
        assert forall|x: int| 0 <= x < tv.len() implies prompts_ascending(
            (#[trigger] tv[x]).4,
        ) by {
            assert(tv[x] == task_v(out@[x]));
        }
        assert(tasks_exported_ok(m, project_id as int, tv, tids, eidss));
    }
    Ok((out, Ghost((tids, eidss))))
}

/// Builds the portable document from the whole store: projects, their
/// tasks and those tasks' prompt entries, each level ordered by creation
/// time ascending, ids left out. In a store with intact referential
/// integrity the document holds exactly the store's hierarchy.
pub fn export_snapshot(conn: &rusqlite::Connection) -> (r: Result<ExportData, AppError>)
    requires
        schema_ok(*conn),
    ensures
        r matches Err(e) ==> e is DbError,
        r matches Ok(data) ==> data.version == 1 && doc_ordered(doc_view(data)) && (
        db(*conn).fk_ok() ==> describes(db(*conn), doc_view(data))),
{
    let now = now_rfc3339();
    let projects = select_projects_asc(conn)?;
    let ghost m = db(*conn);
    let ghost pids = Seq::new(projects@.len(), |z: int| projects@[z].id as int);
    let ghost mut tidss: Seq<Seq<int>> = Seq::empty();
    let ghost mut eidsss: Seq<Seq<Seq<int>>> = Seq::empty();
    let mut eprojects: Vec<ExportProject> = Vec::new();
    let mut j: usize = 0;
    while j < projects.len()
        invariant
            schema_ok(*conn),
            m == db(*conn),
            pids == Seq::new(projects@.len(), |z: int| projects@[z].id as int),
            crate::model::lists_projects(projects@, m.projects),
            j <= projects@.len(),
            eprojects@.len() == j,
            tidss.len() == j,
            eidsss.len() == j,
            forall|z: int|
                0 <= z < j ==> project_exported(
                    m,
                    pids[z],
                    proj_v(#[trigger] eprojects@[z]),
                    tidss[z],
                    eidsss[z],
                ),
            forall|z: int| 0 <= z < j ==> tasks_ascending(proj_v(#[trigger] eprojects@[z]).3),
            forall|z: int, x: int|
                0 <= z < j && 0 <= x < proj_v(eprojects@[z]).3.len() ==> prompts_ascending(
                    (#[trigger] proj_v(eprojects@[z]).3[x]).4,
                ),
        decreases projects@.len() - j,
    {
        let proj = &projects[j];
        let (etasks, w) = export_tasks_of_project(conn, proj.id)?;
        let updated_at: Option<String> = match &proj.updated_at {
            Some(s) => Some(s.clone()),
            None => None,
        };
        let ep = ExportProject {
            name: proj.name.clone(),
            created_at: proj.created_at.clone(),
            updated_at,
            tasks: etasks,
        };
        proof {
            assert(pids[j as int] == projects@[j as int].id as int);
            assert(proj_v(ep).3 == ep.tasks@.map_values(|t: ExportTask| task_v(t)));
            assert forall|k: int|
                m.prompts.contains_key(k) && m.tasks.contains_key(#[trigger] m.prompts[k].0)
                    && m.tasks[m.prompts[k].0].0 == pids[j as int] implies (exists|x: int, y: int|
                0 <= x < proj_v(ep).3.len() && 0 <= y < proj_v(ep).3[x].4.len() && (
                #[trigger] w@.1[x][y]) == k) by {
                let tk = m.prompts[k].0;
                let x0 = choose|x: int|
                    0 <= x < proj_v(ep).3.len() && #[trigger] w@.0[x] == tk;
                let y0 = choose|y: int|
                    0 <= y < proj_v(ep).3[x0].4.len() && #[trigger] w@.1[x0][y] == k;
                assert(0 <= x0 < proj_v(ep).3.len() && 0 <= y0 < proj_v(ep).3[x0].4.len()
                    && w@.1[x0][y0] == k);
            }
            assert(project_exported(m, pids[j as int], proj_v(ep), w@.0, w@.1));
            assert(tasks_ascending(proj_v(ep).3));
            assert(forall|x: int|
                0 <= x < proj_v(ep).3.len() ==> prompts_ascending((#[trigger] proj_v(ep).3[x]).4));
            tidss = tidss.push(w@.0);
            eidsss = eidsss.push(w@.1);
        }
        eprojects.push(ep);
        j += 1;
    }
    let data = ExportData { version: 1, exported_at: now, projects: eprojects };
    proof {
        let d = doc_view(data);
        assert(d.len() == projects@.len());
        assert forall|z: int| 0 <= z < d.len() implies #[trigger] d[z] == proj_v(
            data.projects@[z],
        ) && project_exported(m, pids[z], d[z], tidss[z], eidsss[z]) && tasks_ascending(d[z].3)
            && (forall|x: int|
            0 <= x < d[z].3.len() ==> prompts_ascending((#[trigger] d[z].3[x]).4)) by {}
        assert forall|j1: int, j2: int|
            0 <= j1 < j2 < d.len() implies crate::text::str_le(d[j1].1, d[j2].1) by {
            assert(pids[j1] == projects@[j1].id as int && pids[j2] == projects@[j2].id as int);
            assert(crate::model::proj_matches(projects@[j1], pids[j1], m.projects[pids[j1]]));
            assert(crate::model::proj_matches(projects@[j2], pids[j2], m.projects[pids[j2]]));
            assert(d[j1].1 == projects@[j1].created_at@);
            assert(d[j2].1 == projects@[j2].created_at@);
            assert(crate::text::str_le(projects@[j1].created_at@, projects@[j2].created_at@));
        }
        assert(doc_ordered(d));
        if m.fk_ok() {
            assert forall|k: int| m.projects.contains_key(k) implies (exists|z: int|
                0 <= z < d.len() && #[trigger] pids[z] == k) by {
                let i0 = choose|i: int|
                    0 <= i < projects@.len() && (#[trigger] projects@[i].id) as int == k;
                assert(pids[i0] == k);
            }
            assert forall|z1: int, z2: int|
                0 <= z1 < z2 < d.len() implies pids[z1] != pids[z2] by {
                assert(projects@[z1].id != projects@[z2].id);
            }
            assert forall|k: int| m.tasks.contains_key(k) implies (exists|z: int, x: int|
                0 <= z < d.len() && 0 <= x < d[z].3.len() && (#[trigger] tidss[z][x]) == k) by {
                let pk = m.tasks[k].0;
                assert(m.projects.contains_key(pk));
                let z0 = choose|z: int| 0 <= z < d.len() && #[trigger] pids[z] == pk;
                assert(project_exported(m, pids[z0], d[z0], tidss[z0], eidsss[z0]));
                let x0 = choose|x: int| 0 <= x < d[z0].3.len() && #[trigger] tidss[z0][x] == k;
                assert(0 <= z0 < d.len() && 0 <= x0 < d[z0].3.len() && tidss[z0][x0] == k);
            }
            assert forall|j1: int, x1: int, j2: int, x2: int|
                0 <= j1 < d.len() && 0 <= x1 < d[j1].3.len() && 0 <= j2 < d.len() && 0 <= x2
                    < d[j2].3.len() && (#[trigger] tidss[j1][x1]) == (#[trigger] tidss[j2][x2])
                implies j1 == j2 && x1 == x2 by {
                assert(m.tasks[tidss[j1][x1]].0 == pids[j1]);
                assert(m.tasks[tidss[j2][x2]].0 == pids[j2]);
                if j1 != j2 {
                    assert(pids[j1] != pids[j2]);
                }
            }
            assert forall|k: int| m.prompts.contains_key(k) implies (exists|
                z: int,
                x: int,
                y: int,
            |
                0 <= z < d.len() && 0 <= x < d[z].3.len() && 0 <= y < d[z].3[x].4.len() && (
                #[trigger] eidsss[z][x][y]) == k) by {
                let tk = m.prompts[k].0;
                assert(m.tasks.contains_key(tk));
                let pk = m.tasks[tk].0;
                assert(m.projects.contains_key(pk));
                let z0 = choose|z: int| 0 <= z < d.len() && #[trigger] pids[z] == pk;
                assert(project_exported(m, pids[z0], d[z0], tidss[z0], eidsss[z0]));
                let (x0, y0) = choose|x: int, y: int|
                    0 <= x < d[z0].3.len() && 0 <= y < d[z0].3[x].4.len() && (
                    #[trigger] eidsss[z0][x][y]) == k;
                assert(0 <= z0 < d.len() && 0 <= x0 < d[z0].3.len() && 0 <= y0
                    < d[z0].3[x0].4.len() && eidsss[z0][x0][y0] == k);
            }
            assert forall|j1: int, x1: int, y1: int, j2: int, x2: int, y2: int|
                0 <= j1 < d.len() && 0 <= x1 < d[j1].3.len() && 0 <= y1 < d[j1].3[x1].4.len() && 0
                    <= j2 < d.len() && 0 <= x2 < d[j2].3.len() && 0 <= y2 < d[j2].3[x2].4.len() && (
                #[trigger] eidsss[j1][x1][y1]) == (#[trigger] eidsss[j2][x2][y2]) implies j1 == j2
                    && x1 == x2 && y1 == y2 by {
                let k = eidsss[j1][x1][y1];
                assert(m.prompts[k].0 == tidss[j1][x1]);
                assert(m.prompts[k].0 == tidss[j2][x2]);
                assert(m.tasks[tidss[j1][x1]].0 == pids[j1]);
                if j1 != j2 {
                    assert(pids[j1] != pids[j2]);
                }
            }
            assert(describes_w(m, d, pids, tidss, eidsss));
        }
    }
    Ok(data)
}

} // verus!
