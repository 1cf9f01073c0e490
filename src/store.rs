use vstd::prelude::*;
use crate::error::RepoError;
use crate::ident::{parse_post_id, format_id, canonical_id, uuid_text};
use crate::models::{Post, PostView, NewPost, UpdatePost, PaginatedPost, posts_view};
use crate::timestamp::NativeTime;
use crate::lemmas::{newest_first, lemma_lookup_finds_row, lemma_cursor_follows};

verus! {

/// The mathematical value of the posts table: its rows in order of insertion,
/// the latest time that the table has stamped, and every identifier that it has
/// ever accepted, deleted rows' included.
pub struct TableView {
    pub rows: Seq<PostView>,
    pub clock: NativeTime,
    pub issued: Set<u128>,
}

/// A row's timestamps are well formed and ordered: created, then updated, and no
/// later than the table's clock.
pub open spec fn row_wf(p: PostView, clock: NativeTime) -> bool {
    &&& p.created_at.wf()
    &&& p.updated_at.wf()
    &&& !p.updated_at.before(p.created_at)
    &&& !clock.before(p.updated_at)
}

/// The table's invariant: every row is well formed, identifiers are unique and
/// issued, and rows stand in strictly increasing order of creation time.
pub open spec fn table_wf(t: TableView) -> bool {
    &&& t.clock.wf()
    &&& forall|i: int| 0 <= i < t.rows.len() ==> t.issued.contains(#[trigger] t.rows[i].id)
    &&& forall|i: int| 0 <= i < t.rows.len() ==> row_wf(#[trigger] t.rows[i], t.clock)
    &&& forall|i: int, j: int|
        0 <= i < j < t.rows.len() ==> (#[trigger] t.rows[i]).created_at.before(
            (#[trigger] t.rows[j]).created_at,
        )
    &&& forall|i: int, j: int|
        0 <= i < t.rows.len() && 0 <= j < t.rows.len() && i != j ==> (#[trigger] t.rows[i]).id
            != (#[trigger] t.rows[j]).id
}

/// Whether some row has identifier `id`.
pub open spec fn has_id(rows: Seq<PostView>, id: u128) -> bool {
    exists|i: int| 0 <= i < rows.len() && (#[trigger] rows[i]).id == id
}

/// The position of the row with identifier `id`, if there is one.
pub open spec fn index_of(rows: Seq<PostView>, id: u128) -> Option<int> {
    if has_id(rows, id) {
        Some(choose|i: int| 0 <= i < rows.len() && (#[trigger] rows[i]).id == id)
    } else {
        None
    }
}

/// Looking a post up by its primary key.
pub open spec fn lookup(rows: Seq<PostView>, id: u128) -> Result<PostView, RepoError> {
    match index_of(rows, id) {
        Some(i) => Ok(rows[i]),
        None => Err(RepoError::NotFound),
    }
}

/// The table without the row that has identifier `id`, if there is one.
pub open spec fn remove_id(rows: Seq<PostView>, id: u128) -> Seq<PostView> {
    match index_of(rows, id) {
        Some(i) => rows.remove(i),
        None => rows,
    }
}

/// The time that the table stamps on a write at wall-clock time `now`: `now`
/// itself when it is past the clock, else one nanosecond past the clock.
pub open spec fn next_stamp(clock: NativeTime, now: NativeTime) -> Option<NativeTime> {
    if clock.before(now) {
        Some(now)
    } else if clock.nanos + 1 < crate::timestamp::NANOS_PER_SEC {
        Some(NativeTime { secs: clock.secs, nanos: (clock.nanos + 1) as u32 })
    } else if clock.secs < i64::MAX {
        Some(NativeTime { secs: (clock.secs + 1) as i64, nanos: 0 })
    } else {
        None
    }
}

/// The number of rows on a page that ends below position `end`.
pub open spec fn page_len(end: int, k: int) -> int {
    if k < end { k } else { end }
}

/// A page: up to `k` rows below position `end`, newest first.
pub open spec fn page_rows(rows: Seq<PostView>, end: int, k: int) -> Seq<PostView> {
    Seq::new(page_len(end, k) as nat, |i: int| rows[end - 1 - i])
}

/// The cursor that a page hands out: the identifier of its last (oldest) row,
/// when the page is full and not empty.
pub open spec fn page_next(rows: Seq<PostView>, end: int, k: int) -> Option<u128> {
    if 0 < k <= end {
        Some(rows[end - k].id)
    } else {
        None
    }
}

/// `pp` is the page of `k` rows below position `end`, with its cursor in text form.
pub open spec fn is_page(pp: PaginatedPost, rows: Seq<PostView>, end: int, k: int) -> bool {
    &&& pp.posts@.len() == page_len(end, k)
    &&& posts_view(pp.posts@) == page_rows(rows, end, k)
    &&& match page_next(rows, end, k) {
        Some(id) => pp.next_page_token matches Some(t) && t@ == uuid_text(id),
        None => pp.next_page_token is None,
    }
}

/// The outcome of a listing that starts after the post with identifier `id`.
pub open spec fn is_page_after(
    r: Result<PaginatedPost, RepoError>,
    rows: Seq<PostView>,
    id: u128,
    k: int,
) -> bool {
    match index_of(rows, id) {
        Some(c) => r matches Ok(pp) && is_page(pp, rows, c, k),
        None => r == Err::<PaginatedPost, RepoError>(RepoError::NotFound),
    }
}

/// The outcome of a read of identifier `id`.
pub open spec fn is_read_of(r: Result<Post, RepoError>, rows: Seq<PostView>, id: u128) -> bool {
    match lookup(rows, id) {
        Ok(p) => r matches Ok(q) && q@ == p,
        Err(e) => r == Err::<Post, RepoError>(e),
    }
}

/// Where a listing with text cursor `token` ends: below every row for an empty
/// token, else below the row that the token names.
pub open spec fn list_end(rows: Seq<PostView>, token: Seq<char>) -> Result<int, RepoError> {
    if token.len() == 0 {
        Ok(rows.len() as int)
    } else {
        match canonical_id(token) {
            None => Err(RepoError::InvalidArgument),
            Some(id) => match index_of(rows, id) {
                Some(c) => Ok(c),
                None => Err(RepoError::NotFound),
            },
        }
    }
}

/// An in-memory posts table with store-assigned timestamps.
pub struct PostStore {
    rows: Vec<Post>,
    clock: NativeTime,
    issued: Vec<u128>,
}

impl View for PostStore {
    type V = TableView;

    closed spec fn view(&self) -> TableView {
        TableView {
            rows: posts_view(self.rows@),
            clock: self.clock,
            issued: Set::new(|v: u128| self.issued@.contains(v)),
        }
    }
}

impl PostStore {
    /// The store's invariant.
    pub open spec fn wf(&self) -> bool {
        table_wf(self@)
    }

    /// An empty table whose clock starts at `start`.
    pub fn new(start: NativeTime) -> (r: PostStore)
        requires
            start.wf(),
        ensures
            r.wf(),
            r@.rows.len() == 0,
            r@.clock == start,
            r@.issued.is_empty(),
    {
        let r = PostStore { rows: Vec::new(), clock: start, issued: Vec::new() };
        assert(r@.issued =~= Set::empty());
        r
    }

    /// Whether the table has ever accepted identifier `id`.
    fn was_issued(&self, id: u128) -> (r: bool)
        ensures
            r == self@.issued.contains(id),
    {
        let mut i: usize = 0;
        while i < self.issued.len()
            invariant
                i <= self.issued@.len(),
                forall|j: int| 0 <= j < i ==> self.issued@[j] != id,
            decreases self.issued@.len() - i,
        {
            if self.issued[i] == id {
                assert(self.issued@.contains(id));
                return true;
            }
            i = i + 1;
        }
        false
    }

    /// The number of rows.
    pub fn len(&self) -> (r: usize)
        ensures
            r == self@.rows.len(),
    {
        self.rows.len()
    }

    /// The position of the row with identifier `id`.
    fn position(&self, id: u128) -> (r: Option<usize>)
        requires
            self.wf(),
        ensures
            r == match index_of(self@.rows, id) {
                Some(i) => Some(i as usize),
                None => None::<usize>,
            },
            r matches Some(i) ==> i < self@.rows.len() && self@.rows[i as int].id == id,
            r is None ==> !has_id(self@.rows, id),
    {
        let ghost rows = self@.rows;
        let mut i: usize = 0;
        while i < self.rows.len()
            invariant
                i <= self.rows.len(),
                rows == self@.rows,
                table_wf(self@),
                forall|j: int| 0 <= j < i ==> rows[j].id != id,
            decreases self.rows.len() - i,
        {
            assert(rows[i as int] == self.rows@[i as int]@);
            if self.rows[i].id == id {
                assert(has_id(rows, id));
                let ghost c = choose|j: int| 0 <= j < rows.len() && (#[trigger] rows[j]).id == id;
                assert(c == i);
                return Some(i);
            }
            i = i + 1;
        }
        proof {
            if has_id(rows, id) {
                let c = choose|j: int| 0 <= j < rows.len() && (#[trigger] rows[j]).id == id;
                assert(rows[c].id == id);
            }
        }
        None
    }

    /// The time to stamp on a write made at `now`.
    fn stamp(&self, now: NativeTime) -> (r: Option<NativeTime>)
        requires
            self.wf(),
            now.wf(),
        ensures
            r == next_stamp(self@.clock, now),
            r matches Some(t) ==> t.wf() && self@.clock.before(t),
    {
        if self.clock.is_before(&now) {
            Some(now)
        } else {
            self.clock.tick()
        }
    }
}

/// Inserts a post with the given title and body. The store supplies the rest:
/// `id` is the identifier that it generated, and the creation and update times
/// are both the stamp for a write at `now`. Fails with `Internal`, leaving the
/// table as it was, when the identifier was ever accepted before (identifiers
/// are never reused, not even after a delete) or no stamp can be made.
pub fn create_post(new_post: &NewPost, store: &mut PostStore, id: u128, now: NativeTime) -> (r:
    Result<Post, RepoError>)
    requires
        old(store).wf(),
        now.wf(),
    ensures
        final(store).wf(),
        r is Err <==> (old(store)@.issued.contains(id) || next_stamp(old(store)@.clock, now)
            is None),
        r matches Err(e) ==> e == RepoError::Internal && final(store)@ == old(store)@,
        r matches Ok(p) ==> {
            &&& Some(p.created_at) == next_stamp(old(store)@.clock, now)
            &&& p@ == (PostView {
                id,
                title: new_post.title@,
                body: new_post.body@,
                created_at: p.created_at,
                updated_at: p.created_at,
            })
            &&& !old(store)@.issued.contains(id)
            &&& !has_id(old(store)@.rows, id)
            &&& final(store)@.issued == old(store)@.issued.insert(id)
            &&& final(store)@.rows == old(store)@.rows.push(p@)
            &&& final(store)@.clock == p.created_at
        },
{
    if store.was_issued(id) {
        return Err(RepoError::Internal);
    }
    proof {
        if has_id(store@.rows, id) {
            let c = choose|j: int| 0 <= j < store@.rows.len() && (#[trigger] store@.rows[j]).id == id;
            assert(store@.issued.contains(store@.rows[c].id));
        }
    }
    let stamp = match store.stamp(now) {
        Some(t) => t,
        None => return Err(RepoError::Internal),
    };
    let post = Post {
        id,
        title: new_post.title.clone(),
        body: new_post.body.clone(),
        created_at: stamp,
        updated_at: stamp,
    };
    let ghost before = store@;
    let ghost old_issued = store.issued@;
    store.rows.push(post.copied());
    store.clock = stamp;
    store.issued.push(id);
    proof {
        assert(store@.rows =~= before.rows.push(post@));
        assert(store.issued@ == old_issued.push(id));
        assert forall|v: u128| #[trigger] store@.issued.contains(v) <==> before.issued.insert(
            id,
        ).contains(v) by {
            if v == id {
                assert(store.issued@[old_issued.len() as int] == id);
            } else if old_issued.contains(v) {
                let j = choose|j: int| 0 <= j < old_issued.len() && old_issued[j] == v;
                assert(store.issued@[j] == v);
            } else if store.issued@.contains(v) {
                let j = choose|j: int| 0 <= j < store.issued@.len() && store.issued@[j] == v;
                assert(old_issued[j] == v);
            }
        }
        assert(store@.issued =~= before.issued.insert(id));
        assert forall|i: int| 0 <= i < store@.rows.len() implies store@.issued.contains(
            #[trigger] store@.rows[i].id,
        ) by {
            if i < before.rows.len() {
                assert(store@.rows[i] == before.rows[i]);
            }
        }
        let rows = store@.rows;
        assert forall|i: int| 0 <= i < rows.len() implies row_wf(#[trigger] rows[i], stamp) by {
            if i < before.rows.len() {
                assert(rows[i] == before.rows[i]);
                assert(row_wf(before.rows[i], before.clock));
            }
        }
        assert forall|i: int, j: int| 0 <= i < j < rows.len() implies (
        #[trigger] rows[i]).created_at.before((#[trigger] rows[j]).created_at) by {
            assert(rows[i] == before.rows[i]);
            if j < before.rows.len() {
                assert(rows[j] == before.rows[j]);
            } else {
                assert(row_wf(before.rows[i], before.clock));
            }
        }
        assert forall|i: int, j: int|
            0 <= i < rows.len() && 0 <= j < rows.len() && i != j implies (#[trigger] rows[i]).id
            != (#[trigger] rows[j]).id by {
            if i < before.rows.len() {
                assert(rows[i] == before.rows[i]);
            }
            if j < before.rows.len() {
                assert(rows[j] == before.rows[j]);
            }
        }
    }
    Ok(post)
}

/// Reads the post whose identifier has the text `post_id`. A text that is not an
/// identifier fails with `InvalidArgument`; an identifier that no row has fails
/// with `NotFound`.
pub fn read_post(post_id: String, store: &PostStore) -> (r: Result<Post, RepoError>)
    requires
        store.wf(),
    ensures
        match canonical_id(post_id@) {
            None => r == Err::<Post, RepoError>(RepoError::InvalidArgument),
            Some(id) => is_read_of(r, store@.rows, id),
        },
        forall|v: u128| post_id@ == #[trigger] uuid_text(v) ==> is_read_of(r, store@.rows, v),
{
    let id = match parse_post_id(post_id.as_str()) {
        Ok(id) => id,
        Err(e) => return Err(e),
    };
    match store.position(id) {
        Some(i) => {
            let p = store.rows[i].copied();
            assert(p@ == store@.rows[i as int]);
            Ok(p)
        },
        None => Err(RepoError::NotFound),
    }
}

/// Overwrites the title and body of the post with identifier `updated_post.id`
/// and stamps its update time with the stamp for a write at `now`; the creation
/// time stays. Fails with `InvalidArgument`, leaving the table as it was, when
/// no row has the identifier or no stamp can be made.
pub fn update_post(updated_post: &UpdatePost, store: &mut PostStore, now: NativeTime) -> (r:
    Result<Post, RepoError>)
    requires
        old(store).wf(),
        now.wf(),
    ensures
        final(store).wf(),
        r is Err <==> (!has_id(old(store)@.rows, updated_post.id) || next_stamp(
            old(store)@.clock,
            now,
        ) is None),
        r matches Err(e) ==> e == RepoError::InvalidArgument && final(store)@ == old(store)@,
        r matches Ok(p) ==> (match index_of(old(store)@.rows, updated_post.id) {
            Some(i) => {
                &&& Some(p.updated_at) == next_stamp(old(store)@.clock, now)
                &&& p@ == (PostView {
                    id: updated_post.id,
                    title: updated_post.title@,
                    body: updated_post.body@,
                    created_at: old(store)@.rows[i].created_at,
                    updated_at: p.updated_at,
                })
                &&& old(store)@.rows[i].updated_at.before(p.updated_at)
                &&& final(store)@.rows == old(store)@.rows.update(i, p@)
                &&& final(store)@.clock == p.updated_at
                &&& final(store)@.issued == old(store)@.issued
            },
            None => false,
        }),
{
    let i = match store.position(updated_post.id) {
        Some(i) => i,
        None => return Err(RepoError::InvalidArgument),
    };
    let stamp = match store.stamp(now) {
        Some(t) => t,
        None => return Err(RepoError::InvalidArgument),
    };
    let ghost before = store@;
    assert(before.rows[i as int] == store.rows@[i as int]@);
    assert(row_wf(before.rows[i as int], before.clock));
    let post = Post {
        id: updated_post.id,
        title: updated_post.title.clone(),
        body: updated_post.body.clone(),
        created_at: store.rows[i].created_at,
        updated_at: stamp,
    };
    store.rows[i] = post.copied();
    store.clock = stamp;
    proof {
        let rows = store@.rows;
        assert(rows =~= before.rows.update(i as int, post@));
        assert(store@.issued == before.issued);
        assert forall|j: int| 0 <= j < rows.len() implies store@.issued.contains(
            #[trigger] rows[j].id,
        ) by {
            assert(before.issued.contains(before.rows[j].id));
        }
        assert forall|j: int| 0 <= j < rows.len() implies row_wf(#[trigger] rows[j], stamp) by {
            if j != i {
                assert(row_wf(before.rows[j], before.clock));
            }
        }
        assert forall|a: int, b: int| 0 <= a < b < rows.len() implies (
        #[trigger] rows[a]).created_at.before((#[trigger] rows[b]).created_at) by {
            assert(before.rows[a].created_at.before(before.rows[b].created_at));
        }
        assert forall|a: int, b: int|
            0 <= a < rows.len() && 0 <= b < rows.len() && a != b implies (#[trigger] rows[a]).id
            != (#[trigger] rows[b]).id by {
            assert(before.rows[a].id != before.rows[b].id);
        }
    }
    Ok(post)
}

/// Deletes the post whose identifier has the text `post_id`, if there is one;
/// an identifier that no row has is no error. A text that is not an identifier
/// fails with `InvalidArgument` and leaves the table as it was.
pub fn delete_post(post_id: String, store: &mut PostStore) -> (r: Result<(), RepoError>)
    requires
        old(store).wf(),
    ensures
        final(store).wf(),
        match canonical_id(post_id@) {
            None => r == Err::<(), RepoError>(RepoError::InvalidArgument) && final(store)@ == old(
                store,
            )@,
            Some(id) => r is Ok && final(store)@.rows == remove_id(old(store)@.rows, id),
        },
        forall|v: u128| post_id@ == #[trigger] uuid_text(v) ==> r is Ok && final(store)@.rows
            == remove_id(old(store)@.rows, v),
        final(store)@.clock == old(store)@.clock,
        final(store)@.issued == old(store)@.issued,
{
    let id = match parse_post_id(post_id.as_str()) {
        Ok(id) => id,
        Err(e) => return Err(e),
    };
    match store.position(id) {
        Some(i) => {
            let ghost before = store@;
            let _removed = store.rows.remove(i);
            proof {
                let rows = store@.rows;
                assert(rows =~= before.rows.remove(i as int));
                assert(store@.issued == before.issued);
                assert forall|j: int| 0 <= j < rows.len() implies store@.issued.contains(
                    #[trigger] rows[j].id,
                ) by {
                    if j < i {
                        assert(before.issued.contains(before.rows[j].id));
                    } else {
                        assert(before.issued.contains(before.rows[j + 1].id));
                    }
                }
                assert forall|j: int| 0 <= j < rows.len() implies row_wf(
                    #[trigger] rows[j],
                    before.clock,
                ) by {
                    if j < i {
                        assert(row_wf(before.rows[j], before.clock));
                    } else {
                        assert(row_wf(before.rows[j + 1], before.clock));
                    }
                }
                assert forall|a: int, b: int| 0 <= a < b < rows.len() implies (
                #[trigger] rows[a]).created_at.before((#[trigger] rows[b]).created_at) by {
                    let a2 = if a < i { a } else { a + 1 };
                    let b2 = if b < i { b } else { b + 1 };
                    assert(before.rows[a2].created_at.before(before.rows[b2].created_at));
                }
                assert forall|a: int, b: int|
                    0 <= a < rows.len() && 0 <= b < rows.len() && a != b implies (
                #[trigger] rows[a]).id != (#[trigger] rows[b]).id by {
                    let a2 = if a < i { a } else { a + 1 };
                    let b2 = if b < i { b } else { b + 1 };
                    assert(before.rows[a2].id != before.rows[b2].id);
                }
            }
        },
        None => {},
    }
    Ok(())
}

/// Lists up to `page_size` posts, newest first. An empty `page_token` starts at
/// the newest post; otherwise it is the identifier of the post that the page
/// follows, and only older posts are listed. A token that is not an identifier
/// fails with `InvalidArgument`, one that no row has with `NotFound`. A full,
/// non-empty page carries the identifier of its last post as the next token.
pub fn list_post(page_token: String, page_size: u32, store: &PostStore) -> (r: Result<
    PaginatedPost,
    RepoError,
>)
    requires
        store.wf(),
    ensures
        page_token@.len() == 0 ==> (r matches Ok(pp) && is_page(
            pp,
            store@.rows,
            store@.rows.len() as int,
            page_size as int,
        )),
        page_token@.len() != 0 ==> match canonical_id(page_token@) {
            None => r == Err::<PaginatedPost, RepoError>(RepoError::InvalidArgument),
            Some(id) => is_page_after(r, store@.rows, id, page_size as int),
        },
        forall|v: u128| page_token@ == #[trigger] uuid_text(v) ==> is_page_after(
            r,
            store@.rows,
            v,
            page_size as int,
        ),
{
    let end: usize = match list_plan(page_token.as_str()) {
        Err(e) => return Err(e),
        Ok(None) => store.rows.len(),
        Ok(Some(id)) => match store.position(id) {
            Some(c) => c,
            None => return Err(RepoError::NotFound),
        },
    };
    proof {
        assert forall|v: u128| page_token@ == #[trigger] uuid_text(v) implies page_token@.len() != 0 by {
        }
    }
    let take: usize = if (page_size as usize) < end { page_size as usize } else { end };
    let ghost rows = store@.rows;
    let mut posts: Vec<Post> = Vec::new();
    let mut i: usize = 0;
    while i < take
        invariant
            take == page_len(end as int, page_size as int),
            end <= rows.len(),
            rows == store@.rows,
            i <= take,
            posts_view(posts@) =~= page_rows(rows, end as int, page_size as int).take(i as int),
        decreases take - i,
    {
        let p = store.rows[end - 1 - i].copied();
        assert(p@ == rows[end - 1 - i]);
        let ghost prev = posts@;
        posts.push(p);
        assert(posts_view(posts@) =~= posts_view(prev).push(p@));
        i = i + 1;
    }
    assert(posts_view(posts@) =~= page_rows(rows, end as int, page_size as int));
    assert(posts_view(posts@).len() == posts@.len());
    if 0 < take {
        assert(posts@[take - 1]@ == posts_view(posts@)[take - 1]);
    }
    Ok(page_from_rows(posts, page_size))
}

/// The first step of a listing: `None` for an empty token (start at the newest
/// post), else the identifier that the token names; a token that is not the
/// canonical text of an identifier fails with `InvalidArgument`.
pub fn list_plan(page_token: &str) -> (r: Result<Option<u128>, RepoError>)
    ensures
        page_token@.len() == 0 ==> r == Ok::<Option<u128>, RepoError>(None),
        page_token@.len() != 0 ==> r == match canonical_id(page_token@) {
            Some(v) => Ok::<Option<u128>, RepoError>(Some(v)),
            None => Err::<Option<u128>, RepoError>(RepoError::InvalidArgument),
        },
        forall|v: u128| page_token@ == #[trigger] uuid_text(v) ==> r == Ok::<
            Option<u128>,
            RepoError,
        >(Some(v)),
{
    if page_token.is_empty() {
        Ok(None)
    } else {
        match parse_post_id(page_token) {
            Ok(id) => Ok(Some(id)),
            Err(e) => Err(e),
        }
    }
}

/// The last step of a listing: the rows fetched for the page, newest first and
/// at most `page_size` of them. A full, non-empty page carries the identifier of
/// its last row as the cursor for the next page; any other page ends the listing.
pub fn page_from_rows(rows: Vec<Post>, page_size: u32) -> (r: PaginatedPost)
    ensures
        r.posts@ == rows@,
        if 0 < rows@.len() && rows@.len() == page_size {
            r.next_page_token matches Some(t) && t@ == uuid_text(rows@.last().id)
        } else {
            r.next_page_token is None
        },
{
    let n = rows.len();
    let next_page_token = if 0 < n && n == page_size as usize {
        Some(format_id(rows[n - 1].id))
    } else {
        None
    };
    PaginatedPost { posts: rows, next_page_token }
}


/// Reads every post by paging through the table with `list_post`, `page_size`
/// posts at a time, feeding each page's cursor into the next call until a page
/// carries none. With a positive page size this hands out every post exactly
/// once, newest first; with page size zero it hands out nothing.
pub fn list_all_posts(store: &PostStore, page_size: u32) -> (r: Vec<Post>)
    requires
        store.wf(),
    ensures
        page_size > 0 ==> posts_view(r@) == newest_first(store@.rows),
        page_size == 0 ==> r@.len() == 0,
{
    let ghost rows = store@.rows;
    let ghost n = rows.len() as int;
    let ghost k = page_size as int;
    let mut out: Vec<Post> = Vec::new();
    let mut token = String::new();
    let mut first = true;
    let ghost mut end: int = n;
    loop
        invariant
            table_wf(store@),
            rows == store@.rows,
            n == rows.len(),
            k == page_size as int,
            0 <= end <= n,
            first ==> end == n && token@.len() == 0,
            !first ==> end < n && token@ == uuid_text(rows[end].id) && k > 0,
            posts_view(out@) =~= newest_first(rows).take(n - end),
        decreases end + (if first { 1int } else { 0 }),
    {
        proof {
            if !first {
                lemma_lookup_finds_row(store@, end);
                assert(token@.len() == 36);
            }
        }
        let page = match list_post(token.clone(), page_size, store) {
            Ok(pp) => pp,
            Err(_) => {
                assert(false);
                return out;
            },
        };
        assert(is_page(page, rows, end, k));
        let mut i: usize = 0;
        while i < page.posts.len()
            invariant
                0 <= end <= n,
                n == rows.len(),
                page.posts@.len() == page_len(end, k),
                posts_view(page.posts@) == page_rows(rows, end, k),
                i <= page.posts@.len(),
                posts_view(out@) =~= newest_first(rows).take(n - end + i),
            decreases page.posts@.len() - i,
        {
            assert(posts_view(page.posts@)[i as int] == page.posts@[i as int]@);
            let p = page.posts[i].copied();
            let ghost prev = out@;
            out.push(p);
            assert(posts_view(out@) =~= posts_view(prev).push(p@));
            i = i + 1;
        }
        match page.next_page_token {
            Some(t) => {
                proof {
                    lemma_cursor_follows(store@, end, k);
                    end = end - k;
                }
                token = t;
                first = false;
            },
            None => {
                if page_size > 0 {
                    assert(n - end + page_len(end, k) == n);
                    assert(newest_first(rows).take(n) =~= newest_first(rows));
                } else {
                    assert(page_len(end, k) == 0);
                }
                return out;
            },
        }
    }
}

} // verus!
