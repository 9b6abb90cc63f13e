use vstd::prelude::*;

use crate::error::AppError;
use crate::model::{os_view, StoreModel};
use crate::models::{SearchResultDto, SearchRow};
use crate::store::{db, db_err, schema_ok};
use crate::text::{check_blank, contains_seq, find_sub, is_blank, matches_at, str_le};

verus! {

/// The lowercase form of a text, as str::to_lowercase computes it: a
/// function of the characters alone.
pub uninterp spec fn lower_of(s: Seq<char>) -> Seq<char>;

/// Relies on str::to_lowercase: the result depends on the characters
/// alone, and an empty string stays empty.
#[verifier::external_body]
fn to_lower(s: &str) -> (r: String)
    ensures
        r@ == lower_of(s@),
        s@.len() == 0 ==> r@.len() == 0,
{
    s.to_lowercase()
}

/// Whether the store's LIKE operator matches `text` against `pattern`:
/// a function of the two texts alone (SQLite documents LIKE as
/// case-insensitive for ASCII only; this name does not decide more).
pub uninterp spec fn sql_like(pattern: Seq<char>, text: Seq<char>) -> bool;

/// The pattern the search runs: the keyword between two wildcards.
pub open spec fn like_pattern(kw: Seq<char>) -> Seq<char> {
    seq!['%'] + kw + seq!['%']
}

/// A stored prompt entry is a search hit: its title or content matches
/// the pattern, its joins resolve, and the optional scopes hold.
pub open spec fn search_match(
    m: StoreModel,
    k: int,
    pat: Seq<char>,
    pid: Option<int>,
    tid: Option<int>,
) -> bool {
    &&& m.prompts.contains_key(k)
    &&& ((match m.prompts[k].1 {
        Some(t) => sql_like(pat, t),
        None => false,
    }) || sql_like(pat, m.prompts[k].2))
    &&& m.tasks.contains_key(m.prompts[k].0)
    &&& m.projects.contains_key(m.tasks[m.prompts[k].0].0)
    &&& (pid matches Some(p) ==> m.tasks[m.prompts[k].0].0 == p)
    &&& (tid matches Some(t) ==> m.prompts[k].0 == t)
}

/// A raw search row carries the joined fields of its prompt entry, task
/// and project.
pub open spec fn search_row_ok(r: SearchRow, m: StoreModel) -> bool {
    &&& m.prompts.contains_key(r.prompt_id as int)
    &&& ({
        let p = m.prompts[r.prompt_id as int];
        &&& r.task_id as int == p.0
        &&& os_view(r.title) == p.1
        &&& r.content@ == p.2
        &&& r.created_at@ == p.5
        &&& m.tasks.contains_key(p.0)
        &&& r.task_name@ == m.tasks[p.0].1
        &&& r.project_id as int == m.tasks[p.0].0
        &&& m.projects.contains_key(m.tasks[p.0].0)
        &&& r.project_name@ == m.projects[m.tasks[p.0].0].0
    })
}

pub open spec fn oid_view(o: Option<i64>) -> Option<int> {
    match o {
        Some(v) => Some(v as int),
        None => None,
    }
}

/// Relies on rusqlite prepare / query_map running one SELECT that joins
/// prompt_entries with tasks and projects, keeps the rows whose title or
/// content LIKE-matches the keyword between wildcards, applies the
/// optional id scopes, orders newest first and stops at `limit` rows
/// (a negative limit means no limit, as SQLite reads it). If fewer than
/// `limit` rows come back, every matching row is among them.
#[verifier::external_body]
fn select_search_rows(
    conn: &rusqlite::Connection,
    keyword: &str,
    project_id: Option<i64>,
    task_id: Option<i64>,
    limit: i64,
) -> (r: Result<Vec<SearchRow>, AppError>)
    requires
        schema_ok(*conn),
    ensures
        r matches Ok(v) ==> ({
            let m = db(*conn);
            let pat = like_pattern(keyword@);
            &&& forall|i: int|
                0 <= i < v@.len() ==> search_row_ok(#[trigger] v@[i], m) && search_match(
                    m,
                    v@[i].prompt_id as int,
                    pat,
                    oid_view(project_id),
                    oid_view(task_id),
                )
            &&& forall|i: int|
                0 <= i < v@.len() ==> ((#[trigger] v@[i]).title matches Some(t) && sql_like(
                    pat,
                    t@,
                )) || sql_like(pat, v@[i].content@)
            &&& forall|i: int, j: int|
                0 <= i < j < v@.len() ==> v@[i].prompt_id != v@[j].prompt_id
            &&& forall|i: int, j: int|
                0 <= i < j < v@.len() ==> str_le(v@[j].created_at@, v@[i].created_at@)
            &&& (limit >= 0 ==> v@.len() <= limit)
            &&& ((limit < 0 || v@.len() < limit) ==> forall|k: int|
                search_match(m, k, pat, oid_view(project_id), oid_view(task_id)) ==> exists|i: int|
                    0 <= i < v@.len() && (#[trigger] v@[i].prompt_id) as int == k)
        }),
        r matches Err(e) ==> e is DbError,
{
    let pattern = format!("%{}%", keyword);
    let r = conn.prepare(
        "SELECT p.id, t.id, pe.id, p.name, t.name, pe.content, pe.title, pe.created_at \
         FROM prompt_entries pe JOIN tasks t ON pe.task_id = t.id JOIN projects p ON t.project_id = p.id \
         WHERE (pe.title LIKE ?1 OR pe.content LIKE ?1) AND (?2 IS NULL OR p.id = ?2) AND (?3 IS NULL OR t.id = ?3) \
         ORDER BY pe.created_at DESC LIMIT ?4",
    ).and_then(|mut s| s.query_map((&pattern, project_id, task_id, limit), |row| Ok(SearchRow {
            project_id: row.get(0)?, task_id: row.get(1)?, prompt_id: row.get(2)?,
            project_name: row.get(3)?, task_name: row.get(4)?, content: row.get(5)?,
            title: row.get(6)?, created_at: row.get(7)?,
        }))?.collect());
    r.map_err(db_err)
}

/// There is an occurrence of `needle` at `i` in `hay` and none earlier.
pub open spec fn found_at(hay: Seq<char>, needle: Seq<char>, i: int) -> bool {
    matches_at(hay, needle, i) && (forall|j: int| 0 <= j < i ==> !matches_at(hay, needle, j))
}

/// The excerpt around a match at `pos` (a position in the lowercased
/// content): up to 50 characters each side of the matched keyword,
/// clamped to the content, with an ellipsis marking each truncated end.
pub open spec fn excerpt_around(content: Seq<char>, pos: int, klen: int) -> Seq<char> {
    let start0 = if pos > 50 {
        pos - 50
    } else {
        0
    };
    let start = if start0 > content.len() {
        content.len() as int
    } else {
        start0
    };
    let end = if pos + klen + 50 < content.len() {
        pos + klen + 50
    } else {
        content.len() as int
    };
    let lead = if start > 0 {
        "..."@
    } else {
        Seq::<char>::empty()
    };
    let tail = if end < content.len() {
        "..."@
    } else {
        Seq::<char>::empty()
    };
    lead + content.subrange(start, end) + tail
}

/// The head of the content, cut to 100 characters with an ellipsis when
/// it was longer.
pub open spec fn clipped_head(content: Seq<char>) -> Seq<char> {
    if content.len() > 100 {
        content.subrange(0, 100) + "..."@
    } else {
        content
    }
}

/// The snippet computed for a content-level match (no title hit): the
/// excerpt around the first case-insensitive occurrence of the keyword,
/// or the clipped head when the keyword cannot be located in the content
/// (a store-level match the snippet logic cannot replicate).
pub open spec fn content_snippet_ok(
    out: Seq<char>,
    content: Seq<char>,
    kw: Seq<char>,
) -> bool {
    if contains_seq(lower_of(content), lower_of(kw)) {
        exists|pos: int|
            found_at(lower_of(content), lower_of(kw), pos) && out == excerpt_around(
                content,
                pos,
                kw.len() as int,
            )
    } else {
        out == clipped_head(content)
    }
}

/// What generate_snippet returns: the marked title when the title
/// contains the keyword case-insensitively, else a content excerpt.
pub open spec fn snippet_ok(
    out: Seq<char>,
    content: Seq<char>,
    title: Option<Seq<char>>,
    kw: Seq<char>,
) -> bool {
    match title {
        Some(t) => if contains_seq(lower_of(t), lower_of(kw)) {
            out == "[title] "@ + t
        } else {
            content_snippet_ok(out, content, kw)
        },
        None => content_snippet_ok(out, content, kw),
    }
}

/// Builds the preview snippet of one search hit. A title that contains
/// the keyword (case-insensitively) takes absolute precedence; otherwise
/// a window of up to 50 characters each side of the first occurrence in
/// the content, with ellipses at truncated ends; otherwise the first 100
/// characters of the content.
pub fn generate_snippet(content: &str, title: &Option<String>, keyword: &str) -> (r: String)
    ensures
        snippet_ok(r@, content@, os_view(*title), keyword@),
{
    let lk = to_lower(keyword);
    match title {
        Some(t) => {
            let lt = to_lower(t.as_str());
            if find_sub(lt.as_str(), lk.as_str()).is_some() {
                let mut s = String::from_str("[title] ");
                s.append(t.as_str());
                return s;
            }
        },
        None => {},
    }
    let lc = to_lower(content);
    match find_sub(lc.as_str(), lk.as_str()) {
        Some(pos) => {
            let clen = content.unicode_len();
            let klen = keyword.unicode_len();
            let start0 = if pos > 50 {
                pos - 50
            } else {
                0
            };
            let start = if start0 > clen {
                clen
            } else {
                start0
            };
            let e1 = pos.saturating_add(klen).saturating_add(50);
            let end = if e1 < clen {
                e1
            } else {
                clen
            };
            let core = content.substring_char(start, end);
            let mut s = String::new();
            if start > 0 {
                s.append("...");
            }
            s.append(core);
            if end < clen {
                s.append("...");
            }
            assert(s@ == excerpt_around(content@, pos as int, keyword@.len() as int));
            s
        },
        None => {
            let clen = content.unicode_len();
            if clen > 100 {
                let head = content.substring_char(0, 100);
                let mut s = head.to_owned();
                s.append("...");
                s
            } else {
                content.to_owned()
            }
        },
    }
}

/// One search result is sound for the store: its ids resolve through the
/// join, its fields come from those rows, its entry matches the pattern
/// and the scopes, and its snippet is the one its entry's title, content
/// and the keyword prescribe.
pub open spec fn result_ok(
    d: SearchResultDto,
    m: StoreModel,
    kw: Seq<char>,
    pid: Option<int>,
    tid: Option<int>,
) -> bool {
    &&& m.prompts.contains_key(d.prompt_id as int)
    &&& ({
        let p = m.prompts[d.prompt_id as int];
        &&& search_match(m, d.prompt_id as int, like_pattern(kw), pid, tid)
        &&& d.task_id as int == p.0
        &&& d.created_at@ == p.5
        &&& d.task_name@ == m.tasks[p.0].1
        &&& d.project_id as int == m.tasks[p.0].0
        &&& d.project_name@ == m.projects[m.tasks[p.0].0].0
        &&& snippet_ok(d.snippet@, p.2, p.1, kw)
    })
}

/// What a successful search returns: sound results, each id once,
/// newest first, within the limit, and complete whenever the limit did
/// not cut the list.
pub open spec fn search_results_ok(
    v: Seq<SearchResultDto>,
    m: StoreModel,
    kw: Seq<char>,
    pid: Option<int>,
    tid: Option<int>,
    limit: int,
) -> bool {
    &&& forall|i: int| 0 <= i < v.len() ==> result_ok(#[trigger] v[i], m, kw, pid, tid)
    &&& forall|i: int, j: int| 0 <= i < j < v.len() ==> v[i].prompt_id != v[j].prompt_id
    &&& forall|i: int, j: int|
        0 <= i < j < v.len() ==> str_le(v[j].created_at@, v[i].created_at@)
    &&& (limit >= 0 ==> v.len() <= limit)
    &&& ((limit < 0 || v.len() < limit) ==> forall|k: int|
        search_match(m, k, like_pattern(kw), pid, tid) ==> exists|i: int|
            0 <= i < v.len() && (#[trigger] v[i].prompt_id) as int == k)
}

/// Substring search across prompt entries joined with their task and
/// project. A blank keyword returns an empty list at once, without
/// touching the store; otherwise the store finds the newest `limit`
/// matches and each row gets its snippet.
#[verifier::rlimit(100)]
#[verifier::spinoff_prover]
pub fn search_prompts(
    conn: &rusqlite::Connection,
    keyword: &str,
    project_id: Option<i64>,
    task_id: Option<i64>,
    limit: i64,
) -> (r: Result<Vec<SearchResultDto>, AppError>)
    requires
        schema_ok(*conn),
    ensures
        is_blank(keyword@) ==> (r matches Ok(v) && v@.len() == 0),
        r matches Err(e) ==> e is DbError,
        r matches Ok(v) ==> is_blank(keyword@) || search_results_ok(
            v@,
            db(*conn),
            keyword@,
            oid_view(project_id),
            oid_view(task_id),
            limit as int,
        ),
{
    if check_blank(keyword) {
        return Ok(Vec::new());
    }
    let rows = select_search_rows(conn, keyword, project_id, task_id, limit)?;
    let ghost m = db(*conn);
    let ghost pid = oid_view(project_id);
    let ghost tid = oid_view(task_id);
    let mut out: Vec<SearchResultDto> = Vec::new();
    let mut i: usize = 0;
    while i < rows.len()
        invariant
            schema_ok(*conn),
            m == db(*conn),
            pid == oid_view(project_id),
            tid == oid_view(task_id),
            i <= rows@.len(),
            out@.len() == i,
            forall|x: int|
                0 <= x < rows@.len() ==> search_row_ok(#[trigger] rows@[x], m) && search_match(
                    m,
                    rows@[x].prompt_id as int,
                    like_pattern(keyword@),
                    pid,
                    tid,
                ),
            forall|x: int, y: int|
                0 <= x < y < rows@.len() ==> rows@[x].prompt_id != rows@[y].prompt_id,
            forall|x: int, y: int|
                0 <= x < y < rows@.len() ==> str_le(rows@[y].created_at@, rows@[x].created_at@),
            forall|x: int|
                0 <= x < i ==> result_ok(#[trigger] out@[x], m, keyword@, pid, tid)
                    && out@[x].prompt_id == rows@[x].prompt_id && out@[x].created_at@
                    == rows@[x].created_at@,
            limit >= 0 ==> rows@.len() <= limit,
            (limit < 0 || rows@.len() < limit) ==> forall|k: int|
                search_match(m, k, like_pattern(keyword@), pid, tid) ==> exists|x: int|
                    0 <= x < rows@.len() && (#[trigger] rows@[x].prompt_id) as int == k,
        decreases rows@.len() - i,
    {
        let row = &rows[i];
        let snippet = generate_snippet(row.content.as_str(), &row.title, keyword);
        let d = SearchResultDto {
            project_id: row.project_id,
            task_id: row.task_id,
            prompt_id: row.prompt_id,
            project_name: row.project_name.clone(),
            task_name: row.task_name.clone(),
            snippet,
            created_at: row.created_at.clone(),
        };
        assert(result_ok(d, m, keyword@, pid, tid));
        out.push(d);
        i += 1;
    }
    proof {
        if limit < 0 || out@.len() < limit {
            assert forall|k: int|
                search_match(m, k, like_pattern(keyword@), pid, tid) implies (exists|x: int|
                0 <= x < out@.len() && (#[trigger] out@[x].prompt_id) as int == k) by {
                let r0 = choose|x: int|
                    0 <= x < rows@.len() && (#[trigger] rows@[x].prompt_id) as int == k;
                assert(out@[r0].prompt_id as int == k);
            }
        }
        assert(search_results_ok(out@, m, keyword@, pid, tid, limit as int));
    }
    Ok(out)
}

} // verus!
