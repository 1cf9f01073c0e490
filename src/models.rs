use vstd::prelude::*;
use crate::error::RepoError;
use crate::ident::{format_id, uuid_text};
use crate::timestamp::{NativeTime, WireTimestamp, to_wire, wire_of};

verus! {

/// A stored post.
pub struct Post {
    pub id: u128,
    pub title: String,
    pub body: String,
    pub created_at: NativeTime,
    pub updated_at: NativeTime,
}

/// The mathematical value of a stored post.
pub struct PostView {
    pub id: u128,
    pub title: Seq<char>,
    pub body: Seq<char>,
    pub created_at: NativeTime,
    pub updated_at: NativeTime,
}

impl View for Post {
    type V = PostView;

    open spec fn view(&self) -> PostView {
        PostView {
            id: self.id,
            title: self.title@,
            body: self.body@,
            created_at: self.created_at,
            updated_at: self.updated_at,
        }
    }
}

/// A post as it is sent to clients.
pub struct WirePost {
    pub id: String,
    pub title: String,
    pub body: String,
    pub tags: Vec<String>,
    pub created_at: Option<WireTimestamp>,
    pub updated_at: Option<WireTimestamp>,
}

/// Both timestamps of a stored post lie at or after the epoch.
pub open spec fn has_wire_times(p: PostView) -> bool {
    p.created_at.after_epoch() && p.updated_at.after_epoch()
}

/// `w` is the wire form of `p`: the identifier in canonical text, title and body
/// as stored, no tags, and both timestamps as durations since the epoch.
pub open spec fn is_reply(w: WirePost, p: PostView) -> bool {
    &&& w.id@ == uuid_text(p.id)
    &&& w.title@ == p.title
    &&& w.body@ == p.body
    &&& w.tags@.len() == 0
    &&& w.created_at == wire_of(p.created_at)
    &&& w.updated_at == wire_of(p.updated_at)
}

/// What assembling the reply for `p` gives: its wire form, or `Internal` when a
/// timestamp lies before the epoch.
pub open spec fn is_reply_outcome(r: Result<WirePost, RepoError>, p: PostView) -> bool {
    if has_wire_times(p) {
        r matches Ok(w) && is_reply(w, p)
    } else {
        r == Err::<WirePost, RepoError>(RepoError::Internal)
    }
}

impl Post {
    /// Both timestamps are well formed.
    pub open spec fn wf(&self) -> bool {
        self.created_at.wf() && self.updated_at.wf()
    }

    /// The wire form of the post. Tags are not stored, so none are sent. A
    /// timestamp before the epoch is an `Internal` error.
    pub fn into_response(&self) -> (r: Result<WirePost, RepoError>)
        requires
            self.wf(),
        ensures
            is_reply_outcome(r, self@),
    {
        let created_at = match to_wire(&self.created_at) {
            Ok(w) => w,
            Err(e) => return Err(e),
        };
        let updated_at = match to_wire(&self.updated_at) {
            Ok(w) => w,
            Err(e) => return Err(e),
        };
        Ok(WirePost {
            id: format_id(self.id),
            title: self.title.clone(),
            body: self.body.clone(),
            tags: Vec::new(),
            created_at: Some(created_at),
            updated_at: Some(updated_at),
        })
    }

    /// A copy of the post, field for field.
    pub fn copied(&self) -> (r: Post)
        ensures
            r@ == self@,
    {
        Post {
            id: self.id,
            title: self.title.clone(),
            body: self.body.clone(),
            created_at: self.created_at,
            updated_at: self.updated_at,
        }
    }
}

/// What a client supplies to create a post; the store assigns the rest.
pub struct NewPost {
    pub title: String,
    pub body: String,
}

/// A full replacement of a post's title and body.
pub struct UpdatePost {
    pub id: u128,
    pub title: String,
    pub body: String,
}

/// One page of a listing, and the cursor for the next page if there may be one.
pub struct PaginatedPost {
    pub posts: Vec<Post>,
    pub next_page_token: Option<String>,
}

/// The posts of a sequence, as values.
pub open spec fn posts_view(v: Seq<Post>) -> Seq<PostView> {
    v.map_values(|p: Post| p@)
}

} // verus!
