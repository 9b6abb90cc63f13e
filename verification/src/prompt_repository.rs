use vstd::prelude::*;

use crate::error::AppError;
use crate::model::{in_range, lists_prompts, os_view, prompt_matches, PromptRec};
use crate::models::{PromptEntryDto, PromptRow};
use crate::store::{
    admin_kept, db, delete_prompt_row, in_tx, insert_prompt, last_insert_id, now_rfc3339,
    projects_of, prompts_of, schema_ok, select_prompt, select_prompts_desc, tasks_of,
    update_prompt_row,
};
use crate::tags::{dec_tags, decode_tags, enc_tags, encode_tags, lemma_tags_roundtrip, vs_view};
use crate::task_repository::ostr_view;
use crate::text::str_le;

verus! {

/// The tag list a stored tags column denotes: an absent column means no
/// tags, and so does text that does not decode (lenient decode).
pub open spec fn decoded_tags(text: Option<Seq<char>>) -> Option<Seq<Seq<char>>> {
    match text {
        Some(s) => dec_tags(s),
        None => None,
    }
}

pub open spec fn otags_view(o: Option<Vec<String>>) -> Option<Seq<Seq<char>>> {
    match o {
        Some(v) => Some(vs_view(v@)),
        None => None,
    }
}

/// The serialized form a tags column takes after an update: a supplied
/// list is encoded; an absent one re-encodes what the stored text
/// denoted, so undecodable text degrades to "no tags".
pub open spec fn reserialized_tags(arg: Option<Seq<Seq<char>>>, cur: Option<Seq<char>>) -> Option<
    Seq<char>,
> {
    match arg {
        Some(ts) => Some(enc_tags(ts)),
        None => match decoded_tags(cur) {
            Some(ts) => Some(enc_tags(ts)),
            None => None,
        },
    }
}

/// A caller-facing prompt entry agrees with a stored row: plain fields
/// equal, tags decoded from the stored text.
pub open spec fn entry_matches(p: PromptEntryDto, k: int, r: PromptRec) -> bool {
    &&& p.id as int == k
    &&& p.task_id as int == r.0
    &&& os_view(p.title) == r.1
    &&& p.content@ == r.2
    &&& otags_view(p.tags) == decoded_tags(r.3)
    &&& os_view(p.model) == r.4
    &&& p.created_at@ == r.5
    &&& os_view(p.updated_at) == r.6
}

/// Two tag lists intersect: some tag occurs in both.
pub open spec fn has_common_tag(a: Seq<Seq<char>>, b: Seq<Seq<char>>) -> bool {
    exists|i: int, j: int| 0 <= i < a.len() && 0 <= j < b.len() && a[i] == b[j]
}

/// Whether a stored row passes an optional tag filter: no filter passes
/// everything; a filter passes rows whose decoded tag set intersects it.
pub open spec fn passes_tag_filter(tags_text: Option<Seq<char>>, filter: Option<Seq<Seq<char>>>) -> bool {
    match filter {
        None => true,
        Some(f) => match decoded_tags(tags_text) {
            Some(ts) => has_common_tag(ts, f),
            None => false,
        },
    }
}

/// Decides whether the two tag lists share a tag.
pub fn tags_intersect(a: &Vec<String>, b: &Vec<String>) -> (r: bool)
    ensures
        r == has_common_tag(vs_view(a@), vs_view(b@)),
{
    let mut i: usize = 0;
    while i < a.len()
        invariant
            i <= a@.len(),
            forall|x: int, y: int|
                0 <= x < i && 0 <= y < b@.len() ==> vs_view(a@)[x] != vs_view(b@)[y],
        decreases a@.len() - i,
    {
        let mut j: usize = 0;
        while j < b.len()
            invariant
                i < a@.len(),
                j <= b@.len(),
                forall|y: int| 0 <= y < j ==> vs_view(a@)[i as int] != vs_view(b@)[y],
            decreases b@.len() - j,
        {
            if a[i] == b[j] {
                assert(vs_view(a@)[i as int] == vs_view(b@)[j as int]);
                return true;
            }
            assert(vs_view(a@)[i as int] != vs_view(b@)[j as int]);
            j += 1;
        }
        i += 1;
    }
    false
}

/// Converts a stored row to the caller-facing shape, decoding its tags.
fn to_entry(row: &PromptRow) -> (r: PromptEntryDto)
    ensures
        r.id == row.id,
        r.task_id == row.task_id,
        r.title == row.title,
        r.content == row.content,
        otags_view(r.tags) == decoded_tags(os_view(row.tags_text)),
        r.model == row.model,
        r.created_at == row.created_at,
        r.updated_at == row.updated_at,
{
    let tags: Option<Vec<String>> = match &row.tags_text {
        Some(s) => decode_tags(s.as_str()),
        None => None,
    };
    let title: Option<String> = match &row.title {
        Some(s) => Some(s.clone()),
        None => None,
    };
    let model: Option<String> = match &row.model {
        Some(s) => Some(s.clone()),
        None => None,
    };
    let updated_at: Option<String> = match &row.updated_at {
        Some(s) => Some(s.clone()),
        None => None,
    };
    PromptEntryDto {
        id: row.id,
        task_id: row.task_id,
        title,
        content: row.content.clone(),
        tags,
        model,
        created_at: row.created_at.clone(),
        updated_at,
    }
}

fn clone_tags(v: &Vec<String>) -> (r: Vec<String>)
    ensures
        vs_view(r@) == vs_view(v@),
{
    let mut out: Vec<String> = Vec::new();
    let mut i: usize = 0;
    while i < v.len()
        invariant
            i <= v@.len(),
            out@.len() == i,
            forall|x: int| 0 <= x < i ==> out@[x]@ == v@[x]@,
        decreases v@.len() - i,
    {
        out.push(v[i].clone());
        i += 1;
    }
    proof {
        assert(vs_view(out@) =~= vs_view(v@));
    }
    out
}

/// A caller-facing entry passes the filter exactly when its own decoded
/// tags intersect it.
pub open spec fn entry_passes(p: PromptEntryDto, filter: Option<Seq<Seq<char>>>) -> bool {
    match filter {
        None => true,
        Some(f) => match otags_view(p.tags) {
            Some(ts) => has_common_tag(ts, f),
            None => false,
        },
    }
}

pub open spec fn ovec_view(o: Option<&Vec<String>>) -> Option<Seq<Seq<char>>> {
    match o {
        Some(v) => Some(vs_view(v@)),
        None => None,
    }
}

/// Lists the prompt entries of one task, newest first, optionally bounded
/// to an inclusive creation-time range (compared as text, as the store
/// compares it) and filtered in memory to entries whose tags intersect
/// the requested tags.
pub fn list_prompts_by_task(
    conn: &rusqlite::Connection,
    task_id: i64,
    start_time: Option<&str>,
    end_time: Option<&str>,
    tags: Option<&Vec<String>>,
) -> (r: Result<Vec<PromptEntryDto>, AppError>)
    requires
        schema_ok(*conn),
    ensures
        r matches Err(e) ==> e is DbError,
        r matches Ok(v) ==> ({
            let m = prompts_of(*conn);
            let lo = ostr_view(start_time);
            let hi = ostr_view(end_time);
            let f = ovec_view(tags);
            &&& forall|oi: int|
                0 <= oi < v@.len() ==> m.contains_key(#[trigger] v@[oi].id as int)
                    && entry_matches(v@[oi], v@[oi].id as int, m[v@[oi].id as int])
                    && m[v@[oi].id as int].0 == task_id as int && in_range(
                    m[v@[oi].id as int],
                    lo,
                    hi,
                ) && entry_passes(v@[oi], f)
            &&& forall|x: int, y: int| 0 <= x < y < v@.len() ==> v@[x].id != v@[y].id
            &&& forall|k: int|
                m.contains_key(k) && m[k].0 == task_id as int && in_range(m[k], lo, hi)
                    && passes_tag_filter(m[k].3, f) ==> exists|oi: int|
                    0 <= oi < v@.len() && (#[trigger] v@[oi].id) as int == k
            &&& forall|x: int, y: int|
                0 <= x < y < v@.len() ==> str_le(v@[y].created_at@, v@[x].created_at@)
        }),
{
    let start_o: Option<String> = match start_time {
        Some(s) => Some(s.to_owned()),
        None => None,
    };
    let end_o: Option<String> = match end_time {
        Some(s) => Some(s.to_owned()),
        None => None,
    };
    let rows = select_prompts_desc(conn, task_id, &start_o, &end_o)?;
    let ghost m = prompts_of(*conn);
    let ghost lo = ostr_view(start_time);
    let ghost hi = ostr_view(end_time);
    let ghost f = ovec_view(tags);
    let mut out: Vec<PromptEntryDto> = Vec::new();
    let mut i: usize = 0;
    while i < rows.len()
        invariant
            schema_ok(*conn),
            m == prompts_of(*conn),
            lo == ostr_view(start_time),
            hi == ostr_view(end_time),
            f == ovec_view(tags),
            i <= rows@.len(),
            lists_prompts(rows@, m, task_id as int, lo, hi),
            forall|x: int, y: int|
                0 <= x < y < rows@.len() ==> str_le(rows@[y].created_at@, rows@[x].created_at@),
            forall|oi: int|
                0 <= oi < out@.len() ==> m.contains_key(#[trigger] out@[oi].id as int)
                    && entry_matches(out@[oi], out@[oi].id as int, m[out@[oi].id as int])
                    && m[out@[oi].id as int].0 == task_id as int && in_range(
                    m[out@[oi].id as int],
                    lo,
                    hi,
                ) && entry_passes(out@[oi], f),
            forall|x: int, y: int| 0 <= x < y < out@.len() ==> out@[x].id != out@[y].id,
            forall|oi: int| #![trigger out@[oi].id]
                0 <= oi < out@.len() ==> exists|ri: int|
                    0 <= ri < i && (#[trigger] rows@[ri].id) == out@[oi].id,
            forall|k: int|
                m.contains_key(k) && m[k].0 == task_id as int && in_range(m[k], lo, hi)
                    && passes_tag_filter(m[k].3, f) && (exists|ri: int|
                    0 <= ri < i && (#[trigger] rows@[ri].id) as int == k) ==> exists|oi: int|
                    0 <= oi < out@.len() && (#[trigger] out@[oi].id) as int == k,
            forall|x: int, y: int|
                0 <= x < y < out@.len() ==> str_le(out@[y].created_at@, out@[x].created_at@),
            forall|oi: int, ri: int|
                0 <= oi < out@.len() && i <= ri < rows@.len() ==> str_le(
                    #[trigger] rows@[ri].created_at@,
                    #[trigger] out@[oi].created_at@,
                ),
        decreases rows@.len() - i,
    {
        let ghost rid = rows@[i as int].id as int;
        assert(m.contains_key(rid) && prompt_matches(rows@[i as int], rid, m[rid]));
        let entry = to_entry(&rows[i]);
        let keep: bool = match (tags, &entry.tags) {
            (Some(fv), Some(ts)) => tags_intersect(ts, fv),
            (Some(_), None) => false,
            (None, _) => true,
        };
        let ghost pre = out@;
        if keep {
            assert(entry_passes(entry, f));
            assert(passes_tag_filter(m[rid].3, f));
            out.push(entry);
            proof {
                assert(out@ == pre.push(entry));
                assert(out@[out@.len() - 1] == entry);
                assert(entry.id == rows@[i as int].id);
                assert forall|oi: int| #![trigger out@[oi].id] 0 <= oi < out@.len() implies (
                exists|ri: int| 0 <= ri < i + 1 && (#[trigger] rows@[ri].id) == out@[oi].id) by {
                    if oi == out@.len() - 1 {
                        assert(rows@[i as int].id == out@[oi].id);
                    } else {
                        assert(out@[oi] == pre[oi]);
                        let r0 = choose|ri: int|
                            0 <= ri < i && (#[trigger] rows@[ri].id) == pre[oi].id;
                        assert(0 <= r0 < i + 1 && rows@[r0].id == out@[oi].id);
                    }
                }
                assert forall|k: int|
                    m.contains_key(k) && m[k].0 == task_id as int && in_range(m[k], lo, hi)
                        && passes_tag_filter(m[k].3, f) && (exists|ri: int|
                        0 <= ri < i + 1 && (#[trigger] rows@[ri].id) as int == k) implies (
                exists|oi: int| 0 <= oi < out@.len() && (#[trigger] out@[oi].id) as int == k) by {
                    let r0 = choose|ri: int|
                        0 <= ri < i + 1 && (#[trigger] rows@[ri].id) as int == k;
                    if r0 == i as int {
                        assert(out@[out@.len() - 1].id as int == k);
                    } else {
                        let o0 = choose|oi: int|
                            0 <= oi < pre.len() && (#[trigger] pre[oi].id) as int == k;
                        assert(out@[o0] == pre[o0]);
                        assert(out@[o0].id as int == k);
                    }
                }
            }
        } else {
            assert(!passes_tag_filter(m[rid].3, f));
            proof {
                assert forall|oi: int| #![trigger out@[oi].id] 0 <= oi < out@.len() implies (
                exists|ri: int| 0 <= ri < i + 1 && (#[trigger] rows@[ri].id) == out@[oi].id) by {
                    let r0 = choose|ri: int|
                        0 <= ri < i && (#[trigger] rows@[ri].id) == out@[oi].id;
                    assert(0 <= r0 < i + 1 && rows@[r0].id == out@[oi].id);
                }
                assert forall|k: int|
                    m.contains_key(k) && m[k].0 == task_id as int && in_range(m[k], lo, hi)
                        && passes_tag_filter(m[k].3, f) && (exists|ri: int|
                        0 <= ri < i + 1 && (#[trigger] rows@[ri].id) as int == k) implies (
                exists|oi: int| 0 <= oi < out@.len() && (#[trigger] out@[oi].id) as int == k) by {
                    let r0 = choose|ri: int|
                        0 <= ri < i + 1 && (#[trigger] rows@[ri].id) as int == k;
                    if r0 == i as int {
                        assert(k == rid);
                        assert(false);
                    }
                }
            }
        }
        i += 1;
    }
    Ok(out)
}

/// Creates a prompt entry under a task. Content must be non-empty (white
/// space alone is allowed as a placeholder); the store enforces that the
/// task exists. Tags, when given, are serialized losslessly.
pub fn create_prompt(
    conn: &mut rusqlite::Connection,
    task_id: i64,
    title: Option<&str>,
    content: &str,
    tags: Option<&Vec<String>>,
    model: Option<&str>,
) -> (r: Result<PromptEntryDto, AppError>)
    requires
        schema_ok(*old(conn)),
        !in_tx(*old(conn)),
    ensures
        admin_kept(*old(conn), *final(conn)),
        (r matches Err(e) && e is ValidationError) <==> content@.len() == 0,
        r is Err ==> db(*final(conn)) == db(*old(conn)),
        r matches Err(e) ==> e is ValidationError || e is DbError,
        r matches Ok(p) ==> ({
            let stored = match ovec_view(tags) {
                Some(ts) => Some(enc_tags(ts)),
                None => None,
            };
            &&& content@.len() > 0
            &&& p.task_id == task_id
            &&& os_view(p.title) == ostr_view(title)
            &&& p.content@ == content@
            &&& otags_view(p.tags) == ovec_view(tags)
            &&& os_view(p.model) == ostr_view(model)
            &&& p.updated_at is None
            &&& p.id >= 1
            &&& !prompts_of(*old(conn)).contains_key(p.id as int)
            &&& (forall|k: int| prompts_of(*old(conn)).contains_key(k) ==> p.id as int > k)
            &&& tasks_of(*old(conn)).contains_key(task_id as int)
            &&& prompts_of(*final(conn)) == prompts_of(*old(conn)).insert(
                p.id as int,
                (
                    task_id as int,
                    ostr_view(title),
                    content@,
                    stored,
                    ostr_view(model),
                    p.created_at@,
                    None,
                ),
            )
            &&& decoded_tags(stored) == ovec_view(tags)
            &&& projects_of(*final(conn)) == projects_of(*old(conn))
            &&& tasks_of(*final(conn)) == tasks_of(*old(conn))
        }),
{
    if content.is_empty() {
        return Err(
            AppError::ValidationError(String::from_str("prompt content must not be empty")),
        );
    }
    let now = now_rfc3339();
    let title_o: Option<String> = match title {
        Some(s) => Some(s.to_owned()),
        None => None,
    };
    let model_o: Option<String> = match model {
        Some(s) => Some(s.to_owned()),
        None => None,
    };
    let tags_text: Option<String> = match tags {
        Some(v) => Some(encode_tags(v)),
        None => None,
    };
    let tags_o: Option<Vec<String>> = match tags {
        Some(v) => Some(clone_tags(v)),
        None => None,
    };
    let none_updated: Option<String> = None;
    insert_prompt(conn, task_id, &title_o, content, &tags_text, &model_o, now.as_str(), &none_updated)?;
    let id = last_insert_id(conn);
    proof {
        match ovec_view(tags) {
            Some(ts) => lemma_tags_roundtrip(ts),
            None => (),
        }
    }
    Ok(
        PromptEntryDto {
            id,
            task_id,
            title: title_o,
            content: content.to_owned(),
            tags: tags_o,
            model: model_o,
            created_at: now,
            updated_at: None,
        },
    )
}

/// What a successful partial update leaves in the prompt table: the
/// merged fields under the same id, a fresh update timestamp, everything
/// else untouched.
pub open spec fn prompt_updated(
    m: Map<int, PromptRec>,
    mf: Map<int, PromptRec>,
    id: int,
    title: Option<Seq<char>>,
    content: Option<Seq<char>>,
    tags: Option<Seq<Seq<char>>>,
    model: Option<Seq<char>>,
) -> bool {
    let cur = m[id];
    let new_title = crate::task_repository::merge_field(title, cur.1);
    let new_content = crate::task_repository::merge_field(content, Some(cur.2)).unwrap();
    let new_tags = reserialized_tags(tags, cur.3);
    let new_model = crate::task_repository::merge_field(model, cur.4);
    &&& m.contains_key(id)
    &&& new_content.len() > 0
    &&& (exists|ts: Seq<char>|
        mf == m.insert(id, (cur.0, new_title, new_content, new_tags, new_model, cur.5, Some(ts))))
    &&& (tags is None ==> decoded_tags(new_tags) == decoded_tags(cur.3))
}

/// Partially updates a prompt entry: supplied fields override, absent
/// fields keep the stored value (tags keep what the stored text denoted).
/// The merged content is re-validated; a missing id fails with Not-Found.
#[verifier::rlimit(50)]
pub fn update_prompt(
    conn: &mut rusqlite::Connection,
    id: i64,
    title: Option<&str>,
    content: Option<&str>,
    tags: Option<&Vec<String>>,
    model: Option<&str>,
) -> (r: Result<(), AppError>)
    requires
        schema_ok(*old(conn)),
        !in_tx(*old(conn)),
    ensures
        admin_kept(*old(conn), *final(conn)),
        r is Err ==> db(*final(conn)) == db(*old(conn)),
        r matches Err(e) ==> e is ValidationError || e is DbError || e is NotFound,
        (r matches Err(e) && e is NotFound) ==> !prompts_of(*old(conn)).contains_key(id as int),
        !prompts_of(*old(conn)).contains_key(id as int) ==> r is Err && !(r matches Err(e)
            && e is ValidationError),
        r is Ok ==> prompt_updated(
            prompts_of(*old(conn)),
            prompts_of(*final(conn)),
            id as int,
            ostr_view(title),
            ostr_view(content),
            ovec_view(tags),
            ostr_view(model),
        ) && projects_of(*final(conn)) == projects_of(*old(conn)) && tasks_of(*final(conn))
            == tasks_of(*old(conn)),
{
    let cur = match select_prompt(conn, id)? {
        Some(p) => p,
        None => {
            return Err(AppError::NotFound(String::from_str("prompt entry not found")));
        },
    };
    let new_title: Option<String> = match title {
        Some(s) => Some(s.to_owned()),
        None => cur.title,
    };
    let new_content: String = match content {
        Some(s) => s.to_owned(),
        None => cur.content,
    };
    let new_model: Option<String> = match model {
        Some(s) => Some(s.to_owned()),
        None => cur.model,
    };
    let cur_decoded: Option<Vec<String>> = match &cur.tags_text {
        Some(s) => decode_tags(s.as_str()),
        None => None,
    };
    let new_tag_vec: Option<Vec<String>> = match tags {
        Some(v) => Some(clone_tags(v)),
        None => cur_decoded,
    };
    let new_tags_text: Option<String> = match &new_tag_vec {
        Some(v) => Some(encode_tags(v)),
        None => None,
    };
    if new_content.as_str().is_empty() {
        return Err(
            AppError::ValidationError(String::from_str("prompt content must not be empty")),
        );
    }
    let now = now_rfc3339();
    proof {
        match decoded_tags(os_view(cur.tags_text)) {
            Some(ts) => lemma_tags_roundtrip(ts),
            None => (),
        }
        match ovec_view(tags) {
            Some(ts) => lemma_tags_roundtrip(ts),
            None => (),
        }
    }
    let _affected = update_prompt_row(
        conn,
        id,
        &new_title,
        new_content.as_str(),
        &new_tags_text,
        &new_model,
        now.as_str(),
    )?;
    proof {
        let m0 = prompts_of(*old(conn));
        let cur0 = m0[id as int];
        let nt = crate::task_repository::merge_field(ostr_view(title), cur0.1);
        let ncon = crate::task_repository::merge_field(ostr_view(content), Some(cur0.2)).unwrap();
        let ntags = reserialized_tags(ovec_view(tags), cur0.3);
        let nm = crate::task_repository::merge_field(ostr_view(model), cur0.4);
        assert(new_content@ == ncon);
        assert(os_view(new_tags_text) == ntags);
        assert(prompts_of(*conn) == m0.insert(
            id as int,
            (cur0.0, nt, ncon, ntags, nm, cur0.5, Some(now@)),
        ));
        assert(prompt_updated(
            m0,
            prompts_of(*conn),
            id as int,
            ostr_view(title),
            ostr_view(content),
            ovec_view(tags),
            ostr_view(model),
        ));
    }
    Ok(())
}

/// Deletes a prompt entry by id. A missing id fails with Not-Found, so
/// deleting the same id twice fails the second time.
pub fn delete_prompt(conn: &mut rusqlite::Connection, id: i64) -> (r: Result<(), AppError>)
    requires
        schema_ok(*old(conn)),
        !in_tx(*old(conn)),
    ensures
        admin_kept(*old(conn), *final(conn)),
        r is Err ==> db(*final(conn)) == db(*old(conn)),
        r matches Err(e) ==> e is DbError || e is NotFound,
        (r matches Err(e) && e is NotFound) ==> !prompts_of(*old(conn)).contains_key(id as int),
        r is Ok ==> prompts_of(*old(conn)).contains_key(id as int) && db(*final(conn))
            == crate::model::delete_prompt_m(db(*old(conn)), id as int),
        !prompts_of(*old(conn)).contains_key(id as int) ==> r is Err,
{
    let affected = delete_prompt_row(conn, id)?;
    if affected == 0 {
        proof {
            assert(prompts_of(*old(conn)).remove(id as int) =~= prompts_of(*old(conn)));
            assert(db(*conn) =~= db(*old(conn)));
        }
        return Err(AppError::NotFound(String::from_str("prompt entry not found")));
    }
    Ok(())
}

/// Fetches one prompt entry by id, with its tags decoded; a missing id
/// fails with Not-Found.
pub fn get_prompt(conn: &rusqlite::Connection, id: i64) -> (r: Result<PromptEntryDto, AppError>)
    requires
        schema_ok(*conn),
    ensures
        r matches Ok(p) ==> prompts_of(*conn).contains_key(id as int) && entry_matches(
            p,
            id as int,
            prompts_of(*conn)[id as int],
        ),
        r matches Err(e) ==> e is DbError || e is NotFound,
        (r matches Err(e) && e is NotFound) ==> !prompts_of(*conn).contains_key(id as int),
        !prompts_of(*conn).contains_key(id as int) ==> r is Err,
{
    match select_prompt(conn, id)? {
        Some(row) => Ok(to_entry(&row)),
        None => Err(AppError::NotFound(String::from_str("prompt entry not found"))),
    }
}

} // verus!
