use vstd::prelude::*;
use crate::error::RepoError;
use crate::models::PostView;
use crate::store::{TableView, table_wf, index_of, lookup, remove_id, page_rows, page_next};

verus! {

/// The rows newest first: the table's rows in reverse order of insertion.
pub open spec fn newest_first(rows: Seq<PostView>) -> Seq<PostView> {
    Seq::new(rows.len(), |i: int| rows[rows.len() - 1 - i])
}

/// Everything that paging from position `end` hands out: the page below `end`,
/// then, while a page hands out a cursor, the pages that follow that cursor.
pub open spec fn walk(rows: Seq<PostView>, end: int, k: int) -> Seq<PostView>
    decreases end,
{
    match page_next(rows, end, k) {
        Some(_) => if 0 < k <= end {
            page_rows(rows, end, k) + walk(rows, end - k, k)
        } else {
            page_rows(rows, end, k)
        },
        None => page_rows(rows, end, k),
    }
}

/// Looking up the identifier of any stored post finds exactly that post.
pub proof fn lemma_lookup_finds_row(t: TableView, i: int)
    requires
        table_wf(t),
        0 <= i < t.rows.len(),
    ensures
        index_of(t.rows, t.rows[i].id) == Some(i),
        lookup(t.rows, t.rows[i].id) == Ok::<PostView, RepoError>(t.rows[i]),
{
    let id = t.rows[i].id;
    assert(t.rows[i].id == id);
    let c = choose|j: int| 0 <= j < t.rows.len() && (#[trigger] t.rows[j]).id == id;
    if c != i {
        assert(t.rows[c].id != t.rows[i].id);
    }
}

/// After a post is deleted, reading its identifier finds nothing.
pub proof fn lemma_delete_then_read_not_found(t: TableView, id: u128)
    requires
        table_wf(t),
    ensures
        lookup(remove_id(t.rows, id), id) == Err::<PostView, RepoError>(RepoError::NotFound),
{
    let rows = remove_id(t.rows, id);
    if let Some(i) = index_of(t.rows, id) {
        assert(t.rows[i].id == id);
        if exists|j: int| 0 <= j < rows.len() && (#[trigger] rows[j]).id == id {
            let j = choose|j: int| 0 <= j < rows.len() && (#[trigger] rows[j]).id == id;
            let j2 = if j < i { j } else { j + 1 };
            assert(rows[j] == t.rows[j2]);
            assert(t.rows[j2].id != t.rows[i].id);
        }
    }
}

/// The cursor that a full page hands out is the identifier of the post at the
/// page's lower end, so a listing that follows it starts right below that page.
pub proof fn lemma_cursor_follows(t: TableView, end: int, k: int)
    requires
        table_wf(t),
        0 < k <= end <= t.rows.len(),
    ensures
        page_next(t.rows, end, k) == Some(t.rows[end - k].id),
        index_of(t.rows, t.rows[end - k].id) == Some(end - k),
{
    let id = t.rows[end - k].id;
    assert(t.rows[end - k].id == id);
    let c = choose|i: int| 0 <= i < t.rows.len() && (#[trigger] t.rows[i]).id == id;
    if c != end - k {
        assert(t.rows[c].id != t.rows[end - k].id);
    }
}

proof fn lemma_walk_from(t: TableView, end: int, k: int)
    requires
        table_wf(t),
        0 <= end <= t.rows.len(),
        k > 0,
    ensures
        walk(t.rows, end, k) =~= Seq::new(end as nat, |i: int| t.rows[end - 1 - i]),
    decreases end,
{
    if k <= end {
        lemma_walk_from(t, end - k, k);
    }
}

/// Paging through a table from the first page, with any positive page size and
/// following each cursor, hands out every post exactly once, newest first, in
/// strictly decreasing order of creation time; the walk ends with a page that
/// carries no cursor.
pub proof fn lemma_paging_lists_all(t: TableView, k: int)
    requires
        table_wf(t),
        k > 0,
    ensures
        walk(t.rows, t.rows.len() as int, k) == newest_first(t.rows),
        forall|i: int, j: int|
            0 <= i < j < t.rows.len() ==> (#[trigger] newest_first(t.rows)[j]).created_at.before(
                (#[trigger] newest_first(t.rows)[i]).created_at,
            ),
{
    lemma_walk_from(t, t.rows.len() as int, k);
    assert(walk(t.rows, t.rows.len() as int, k) =~= newest_first(t.rows));
    let n = t.rows.len() as int;
    assert forall|i: int, j: int| 0 <= i < j < n implies (#[trigger] newest_first(
        t.rows,
    )[j]).created_at.before((#[trigger] newest_first(t.rows)[i]).created_at) by {
        assert(t.rows[n - 1 - j].created_at.before(t.rows[n - 1 - i].created_at));
    }
}

} // verus!
