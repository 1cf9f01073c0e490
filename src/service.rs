use vstd::prelude::*;
use crate::error::RepoError;
use crate::ident::{parse_post_id, canonical_id, uuid_text};
use crate::models::{
    NewPost, UpdatePost, PostView, WirePost, is_reply, is_reply_outcome, has_wire_times,
    posts_view,
};
use crate::store::{
    PostStore, table_wf, row_wf, has_id, index_of, remove_id, next_stamp, list_end, page_rows,
    page_next, page_len, create_post, read_post, update_post, delete_post, list_post,
};
use crate::timestamp::NativeTime;

verus! {

/// A request to create a post; only its title and body are used.
pub struct CreatePostRequest {
    pub post: Option<WirePost>,
}

/// A request to read the post with the given identifier text.
pub struct ReadPostRequest {
    pub id: String,
}

/// A request to overwrite a post's title and body; the post names its identifier.
pub struct UpdatePostRequest {
    pub post: Option<WirePost>,
}

/// A request to delete the post with the given identifier text.
pub struct DeletePostRequest {
    pub id: String,
}

/// A request for one page of posts.
pub struct ListPostRequest {
    pub page_token: String,
    pub page_size: u32,
}

/// One page of posts in wire form; an empty token marks the last page.
pub struct ListPostResponse {
    pub posts: Vec<WirePost>,
    pub next_page_token: String,
}

/// The row that a successful create or update writes.
pub open spec fn written_row(
    id: u128,
    title: Seq<char>,
    body: Seq<char>,
    created_at: NativeTime,
    updated_at: NativeTime,
) -> PostView {
    PostView { id, title, body, created_at, updated_at }
}

/// `resp` is the wire form of the page of `k` rows below position `end`.
pub open spec fn is_list_reply(resp: ListPostResponse, rows: Seq<PostView>, end: int, k: int) -> bool {
    &&& resp.posts@.len() == page_rows(rows, end, k).len()
    &&& forall|i: int|
        0 <= i < resp.posts@.len() ==> is_reply(#[trigger] resp.posts@[i], page_rows(rows, end, k)[i])
    &&& resp.next_page_token@ == match page_next(rows, end, k) {
        Some(id) => uuid_text(id),
        None => Seq::<char>::empty(),
    }
}

/// Every row on the page of `k` rows below position `end` has wire timestamps.
pub open spec fn page_has_wire_times(rows: Seq<PostView>, end: int, k: int) -> bool {
    forall|i: int|
        0 <= i < page_rows(rows, end, k).len() ==> has_wire_times(#[trigger] page_rows(rows, end, k)[i])
}

/// The request handlers: each decodes its request, runs the repository
/// operation on the table, and assembles the reply.
#[derive(Debug)]
pub struct MyPostService {}

impl Default for MyPostService {
    fn default() -> (r: MyPostService)
        ensures
            r == (MyPostService {}),
    {
        MyPostService {}
    }
}

impl MyPostService {
    /// A service.
    pub fn new() -> (r: MyPostService)
        ensures
            r == (MyPostService {}),
    {
        MyPostService {}
    }

    /// Creates a post from the request's title and body, with the identifier `id`
    /// that the store generated and the stamp for a write at `now`. A request
    /// without a post fails with `InvalidArgument`.
    pub fn create_post(
        &self,
        request: CreatePostRequest,
        store: &mut PostStore,
        id: u128,
        now: NativeTime,
    ) -> (r: Result<WirePost, RepoError>)
        requires
            old(store).wf(),
            now.wf(),
        ensures
            final(store).wf(),
            match request.post {
                None => r == Err::<WirePost, RepoError>(RepoError::InvalidArgument) && final(store)@
                    == old(store)@,
                Some(p) => match next_stamp(old(store)@.clock, now) {
                    Some(t) if !old(store)@.issued.contains(id) => {
                        let row = written_row(id, p.title@, p.body@, t, t);
                        &&& final(store)@.rows == old(store)@.rows.push(row)
                        &&& final(store)@.issued == old(store)@.issued.insert(id)
                        &&& final(store)@.clock == t
                        &&& is_reply_outcome(r, row)
                    },
                    _ => r == Err::<WirePost, RepoError>(RepoError::Internal) && final(store)@
                        == old(store)@,
                },
            },
    {
        match request.post {
            Some(post) => {
                let new_post = NewPost { title: post.title, body: post.body };
                let saved = match create_post(&new_post, store, id, now) {
                    Ok(p) => p,
                    Err(e) => return Err(e),
                };
                saved.into_response()
            },
            None => Err(RepoError::InvalidArgument),
        }
    }

    /// Reads a post and sends its wire form.
    pub fn read_post(&self, request: ReadPostRequest, store: &PostStore) -> (r: Result<
        WirePost,
        RepoError,
    >)
        requires
            store.wf(),
        ensures
            match canonical_id(request.id@) {
                None => r == Err::<WirePost, RepoError>(RepoError::InvalidArgument),
                Some(id) => match index_of(store@.rows, id) {
                    Some(i) => is_reply_outcome(r, store@.rows[i]),
                    None => r == Err::<WirePost, RepoError>(RepoError::NotFound),
                },
            },
            forall|v: u128| request.id@ == #[trigger] uuid_text(v) ==> match index_of(store@.rows, v) {
                Some(i) => is_reply_outcome(r, store@.rows[i]),
                None => r == Err::<WirePost, RepoError>(RepoError::NotFound),
            },
    {
        let post = match read_post(request.id, store) {
            Ok(p) => p,
            Err(e) => return Err(e),
        };
        proof {
            if let Some(i) = index_of(store@.rows, post.id) {
                assert(row_wf(store@.rows[i], store@.clock));
            }
        }
        post.into_response()
    }

    /// Overwrites a post's title and body and sends its new wire form. A request
    /// without a post, or whose identifier text is malformed or names no post,
    /// fails with `InvalidArgument`.
    pub fn update_post(
        &self,
        request: UpdatePostRequest,
        store: &mut PostStore,
        now: NativeTime,
    ) -> (r: Result<WirePost, RepoError>)
        requires
            old(store).wf(),
            now.wf(),
        ensures
            final(store).wf(),
            match request.post {
                None => r == Err::<WirePost, RepoError>(RepoError::InvalidArgument) && final(store)@
                    == old(store)@,
                Some(p) => match (canonical_id(p.id@), next_stamp(old(store)@.clock, now)) {
                    (Some(id), Some(t)) if has_id(old(store)@.rows, id) => {
                        let i = index_of(old(store)@.rows, id)->Some_0;
                        let row = written_row(
                            id,
                            p.title@,
                            p.body@,
                            old(store)@.rows[i].created_at,
                            t,
                        );
                        &&& final(store)@.rows == old(store)@.rows.update(i, row)
                        &&& final(store)@.clock == t
                        &&& is_reply_outcome(r, row)
                    },
                    _ => r == Err::<WirePost, RepoError>(RepoError::InvalidArgument) 
                        && final(store)@ == old(store)@,
                },
            },
    {
        match request.post {
            Some(post) => {
                let id = match parse_post_id(post.id.as_str()) {
                    Ok(id) => id,
                    Err(e) => return Err(e),
                };
                let updated = UpdatePost { id, title: post.title, body: post.body };
                let saved = match update_post(&updated, store, now) {
                    Ok(p) => p,
                    Err(e) => return Err(e),
                };
                saved.into_response()
            },
            None => Err(RepoError::InvalidArgument),
        }
    }

    /// Deletes a post; an identifier that names no post is no error.
    pub fn delete_post(&self, request: DeletePostRequest, store: &mut PostStore) -> (r: Result<
        (),
        RepoError,
    >)
        requires
            old(store).wf(),
        ensures
            final(store).wf(),
            final(store)@.clock == old(store)@.clock,
            match canonical_id(request.id@) {
                None => r == Err::<(), RepoError>(RepoError::InvalidArgument) && final(store)@
                    == old(store)@,
                Some(id) => r is Ok && final(store)@.rows == remove_id(old(store)@.rows, id),
            },
    {
        delete_post(request.id, store)
    }

    /// Lists one page of posts in wire form. A failure of the listing is passed
    /// on as it is; a stored timestamp before the epoch is `Internal`.
    pub fn list_post(&self, request: ListPostRequest, store: &PostStore) -> (r: Result<
        ListPostResponse,
        RepoError,
    >)
        requires
            store.wf(),
        ensures
            match list_end(store@.rows, request.page_token@) {
                Err(e) => r == Err::<ListPostResponse, RepoError>(e),
                Ok(end) => if page_has_wire_times(store@.rows, end, request.page_size as int) {
                    r matches Ok(resp) && is_list_reply(
                        resp,
                        store@.rows,
                        end,
                        request.page_size as int,
                    )
                } else {
                    r == Err::<ListPostResponse, RepoError>(RepoError::Internal)
                },
            },
    {
        let ghost rows = store@.rows;
        let ghost token = request.page_token@;
        let ghost k = request.page_size as int;
        let page = match list_post(request.page_token, request.page_size, store) {
            Ok(pp) => pp,
            Err(e) => return Err(e),
        };
        let ghost end = list_end(rows, token)->Ok_0;
        proof {
            if token.len() != 0 {
                let id = canonical_id(token)->Some_0;
                let c = choose|i: int| 0 <= i < rows.len() && (#[trigger] rows[i]).id == id;
                assert(0 <= c < rows.len());
            }
        }
        assert(list_end(rows, token) is Ok);
        assert(posts_view(page.posts@) == page_rows(rows, end, k));
        assert(posts_view(page.posts@).len() == page.posts@.len());
        let mut posts: Vec<WirePost> = Vec::new();
        let mut i: usize = 0;
        while i < page.posts.len()
            invariant
                table_wf(store@),
                rows == store@.rows,
                0 <= end <= rows.len(),
                posts_view(page.posts@) == page_rows(rows, end, k),
                page.posts@.len() == page_len(end, k),
                k == request.page_size as int,
                token == request.page_token@,
                list_end(rows, token) == Ok::<int, RepoError>(end),
                i <= page.posts@.len(),
                posts@.len() == i,
                forall|j: int| 0 <= j < i ==> is_reply(#[trigger] posts@[j], page_rows(rows, end, k)[j]),
                forall|j: int| 0 <= j < i ==> has_wire_times(#[trigger] page_rows(rows, end, k)[j]),
            decreases page.posts@.len() - i,
        {
            assert(posts_view(page.posts@)[i as int] == page.posts@[i as int]@);
            assert(page.posts@[i as int]@ == page_rows(rows, end, k)[i as int]);
            assert(0 <= end - 1 - i < rows.len());
            assert(row_wf(store@.rows[end - 1 - i], store@.clock));
            let w = match page.posts[i].into_response() {
                Ok(w) => w,
                Err(e) => {
                    assert(!has_wire_times(page_rows(rows, end, k)[i as int]));
                    assert(!page_has_wire_times(rows, end, k));
                    return Err(e);
                },
            };
            posts.push(w);
            i = i + 1;
        }
        let next_page_token = match page.next_page_token {
            Some(t) => t,
            None => String::new(),
        };
        Ok(ListPostResponse { posts, next_page_token })
    }
}

} // verus!
