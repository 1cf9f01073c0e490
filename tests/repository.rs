use post_server::error::RepoError;
use post_server::ident::parse_post_id;
use post_server::models::{NewPost, PaginatedPost, Post, UpdatePost};
use post_server::service::{
    CreatePostRequest, DeletePostRequest, ListPostRequest, MyPostService, ReadPostRequest,
    UpdatePostRequest,
};
use post_server::store::{
    create_post, delete_post, list_all_posts, list_plan, list_post, page_from_rows, read_post, update_post, PostStore,
};
use post_server::timestamp::{from_wire, to_wire, NativeTime, WireTimestamp};

const ID_A: u128 = 0x936DA01F9ABD4D9D80C702AF85C822A8;
const ID_B: u128 = 0x0000_0000_0000_0000_0000_0000_0000_0002;
const ID_C: u128 = 0xFFFF_FFFF_FFFF_4FFF_8FFF_FFFF_FFFF_FFFF;

fn at(secs: i64) -> NativeTime {
    NativeTime::new(secs, 0)
}

fn new_post(title: &str, body: &str) -> NewPost {
    NewPost { title: title.to_string(), body: body.to_string() }
}

fn text(id: u128) -> String {
    uuid::Uuid::from_u128(id).to_hyphenated().to_string()
}

fn ids(page: &PaginatedPost) -> Vec<u128> {
    page.posts.iter().map(|p| p.id).collect()
}

fn store_abc() -> PostStore {
    let mut store = PostStore::new(at(0));
    create_post(&new_post("C", "c"), &mut store, ID_C, at(100)).unwrap();
    create_post(&new_post("B", "b"), &mut store, ID_B, at(200)).unwrap();
    create_post(&new_post("A", "a"), &mut store, ID_A, at(300)).unwrap();
    store
}

#[test]
fn wire_timestamp_of_native_time() {
    let t = NativeTime::new(1_600_000_000, 123_456_789);
    let w = to_wire(&t).unwrap();
    assert_eq!(w, WireTimestamp { seconds: 1_600_000_000, nanos: 123_456_789 });
    assert_eq!(from_wire(&w), Some(t));
}

#[test]
fn wire_round_trip_at_epoch_and_extremes() {
    for t in [NativeTime::new(0, 0), NativeTime::new(i64::MAX, 999_999_999), NativeTime::new(1, 1)] {
        assert_eq!(from_wire(&to_wire(&t).unwrap()), Some(t));
    }
}

#[test]
fn time_before_epoch_is_internal_error() {
    assert_eq!(to_wire(&NativeTime::new(-1, 999_999_999)), Err(RepoError::Internal));
}

#[test]
fn from_wire_rejects_out_of_range_values() {
    assert_eq!(from_wire(&WireTimestamp { seconds: 1, nanos: 1_000_000_000 }), None);
    assert_eq!(from_wire(&WireTimestamp { seconds: u64::MAX, nanos: 0 }), None);
}

#[test]
fn tick_moves_one_nanosecond() {
    assert_eq!(NativeTime::new(5, 999_999_999).tick(), Some(NativeTime::new(6, 0)));
    assert_eq!(NativeTime::new(i64::MAX, 999_999_999).tick(), None);
}

#[test]
fn create_stamps_both_times_alike() {
    let mut store = PostStore::new(at(0));
    let p = create_post(&new_post("hello", "world"), &mut store, ID_A, at(10)).unwrap();
    assert_eq!(p.id, ID_A);
    assert_eq!(p.title, "hello");
    assert_eq!(p.body, "world");
    assert_eq!(p.created_at, at(10));
    assert_eq!(p.created_at, p.updated_at);
    assert_eq!(store.len(), 1);
}

#[test]
fn create_with_taken_id_fails_internal() {
    let mut store = PostStore::new(at(0));
    create_post(&new_post("a", "b"), &mut store, ID_A, at(10)).unwrap();
    let r = create_post(&new_post("c", "d"), &mut store, ID_A, at(20));
    assert!(matches!(r, Err(RepoError::Internal)));
    assert_eq!(store.len(), 1);
}

#[test]
fn create_with_stale_clock_stamps_after_previous_write() {
    let mut store = PostStore::new(at(0));
    create_post(&new_post("a", "b"), &mut store, ID_A, at(50)).unwrap();
    let p = create_post(&new_post("c", "d"), &mut store, ID_B, at(20)).unwrap();
    assert_eq!(p.created_at, NativeTime::new(50, 1));
}

#[test]
fn read_of_formatted_id_returns_the_post() {
    let store = store_abc();
    let p = read_post(text(ID_B), &store).unwrap();
    assert_eq!(p.id, ID_B);
    assert_eq!(p.title, "B");
    assert_eq!(p.body, "b");
    assert_eq!(p.created_at, at(200));
    assert_eq!(p.updated_at, at(200));
}

#[test]
fn read_of_garbage_is_invalid_argument() {
    let store = store_abc();
    assert!(matches!(read_post("not-a-uuid".to_string(), &store), Err(RepoError::InvalidArgument)));
    assert!(matches!(read_post(String::new(), &store), Err(RepoError::InvalidArgument)));
}

#[test]
fn read_of_absent_id_is_not_found() {
    let store = store_abc();
    let absent = text(0x1234);
    assert!(matches!(read_post(absent, &store), Err(RepoError::NotFound)));
}

#[test]
fn update_overwrites_title_and_body() {
    let mut store = store_abc();
    let up = UpdatePost { id: ID_B, title: "T".to_string(), body: "X".to_string() };
    let p = update_post(&up, &mut store, at(400)).unwrap();
    assert_eq!(p.title, "T");
    assert_eq!(p.body, "X");
    assert_eq!(p.created_at, at(200));
    assert_eq!(p.updated_at, at(400));
    let again = read_post(text(ID_B), &store).unwrap();
    assert_eq!(again.title, "T");
    assert_eq!(again.updated_at, at(400));
}

#[test]
fn update_advances_time_even_with_stale_clock() {
    let mut store = store_abc();
    let up = UpdatePost { id: ID_C, title: "t".to_string(), body: "b".to_string() };
    let p = update_post(&up, &mut store, at(1)).unwrap();
    assert_eq!(p.updated_at, NativeTime::new(300, 1));
    assert_eq!(p.created_at, at(100));
}

#[test]
fn update_of_absent_id_is_invalid_argument() {
    let mut store = store_abc();
    let up = UpdatePost { id: 0x77, title: "t".to_string(), body: "b".to_string() };
    assert!(matches!(update_post(&up, &mut store, at(400)), Err(RepoError::InvalidArgument)));
}

#[test]
fn delete_then_read_is_not_found() {
    let mut store = store_abc();
    assert_eq!(delete_post(text(ID_A), &mut store), Ok(()));
    assert!(matches!(read_post(text(ID_A), &store), Err(RepoError::NotFound)));
    assert_eq!(store.len(), 2);
}

#[test]
fn delete_of_absent_id_succeeds() {
    let mut store = store_abc();
    assert_eq!(delete_post(text(0x55), &mut store), Ok(()));
    assert_eq!(store.len(), 3);
}

#[test]
fn delete_of_garbage_is_invalid_argument() {
    let mut store = store_abc();
    assert_eq!(delete_post("xyz".to_string(), &mut store), Err(RepoError::InvalidArgument));
}

#[test]
fn list_pages_newest_first() {
    let store = store_abc();
    let first = list_post(String::new(), 2, &store).unwrap();
    assert_eq!(ids(&first), vec![ID_A, ID_B]);
    assert_eq!(first.next_page_token, Some(text(ID_B)));
    let second = list_post(text(ID_B), 2, &store).unwrap();
    assert_eq!(ids(&second), vec![ID_C]);
    assert_eq!(second.next_page_token, None);
}

#[test]
fn paging_visits_every_post_once() {
    let mut store = PostStore::new(at(0));
    let mut expected: Vec<u128> = Vec::new();
    for n in 1..=7u128 {
        create_post(&new_post("t", "b"), &mut store, n, at(n as i64 * 10)).unwrap();
        expected.insert(0, n);
    }
    let mut seen: Vec<u128> = Vec::new();
    let mut token = String::new();
    let mut calls = 0;
    loop {
        let page = list_post(token.clone(), 3, &store).unwrap();
        calls += 1;
        seen.extend(ids(&page));
        match page.next_page_token {
            Some(t) => token = t,
            None => break,
        }
    }
    assert_eq!(seen, expected);
    assert_eq!(calls, 3);
}

#[test]
fn paging_with_exact_multiple_ends_with_empty_page() {
    let store = store_abc();
    let first = list_post(String::new(), 3, &store).unwrap();
    assert_eq!(ids(&first), vec![ID_A, ID_B, ID_C]);
    assert_eq!(first.next_page_token, Some(text(ID_C)));
    let last = list_post(text(ID_C), 3, &store).unwrap();
    assert!(last.posts.is_empty());
    assert_eq!(last.next_page_token, None);
}

#[test]
fn list_with_zero_page_size_is_empty() {
    let store = store_abc();
    let page = list_post(String::new(), 0, &store).unwrap();
    assert!(page.posts.is_empty());
    assert_eq!(page.next_page_token, None);
}

#[test]
fn list_with_bad_token_is_invalid_argument() {
    let store = store_abc();
    assert!(matches!(list_post("nope".to_string(), 2, &store), Err(RepoError::InvalidArgument)));
}

#[test]
fn list_with_stale_cursor_is_not_found() {
    let mut store = store_abc();
    delete_post(text(ID_B), &mut store).unwrap();
    assert!(matches!(list_post(text(ID_B), 2, &store), Err(RepoError::NotFound)));
}

#[test]
fn list_on_empty_table() {
    let store = PostStore::new(at(0));
    let page = list_post(String::new(), 5, &store).unwrap();
    assert!(page.posts.is_empty());
    assert_eq!(page.next_page_token, None);
}

#[test]
fn response_formats_id_and_times() {
    let p = Post {
        id: ID_A,
        title: "t".to_string(),
        body: "b".to_string(),
        created_at: NativeTime::new(7, 8),
        updated_at: NativeTime::new(9, 10),
    };
    let w = p.into_response().unwrap();
    assert_eq!(w.id, "936da01f-9abd-4d9d-80c7-02af85c822a8");
    assert_eq!(w.title, "t");
    assert_eq!(w.body, "b");
    assert!(w.tags.is_empty());
    assert_eq!(w.created_at, Some(WireTimestamp { seconds: 7, nanos: 8 }));
    assert_eq!(w.updated_at, Some(WireTimestamp { seconds: 9, nanos: 10 }));
}

#[test]
fn response_of_post_before_epoch_is_internal() {
    let p = Post {
        id: ID_B,
        title: String::new(),
        body: String::new(),
        created_at: NativeTime::new(-5, 0),
        updated_at: NativeTime::new(1, 0),
    };
    assert!(matches!(p.into_response(), Err(RepoError::Internal)));
}

#[test]
fn service_create_read_update_delete() {
    let svc = MyPostService::new();
    let mut store = PostStore::new(at(0));
    let wire = Post {
        id: 0,
        title: "title".to_string(),
        body: "body".to_string(),
        created_at: at(0),
        updated_at: at(0),
    }
    .into_response()
    .unwrap();
    let created = svc
        .create_post(CreatePostRequest { post: Some(wire) }, &mut store, ID_C, at(42))
        .unwrap();
    assert_eq!(created.id, text(ID_C));
    assert_eq!(created.created_at, Some(WireTimestamp { seconds: 42, nanos: 0 }));
    assert!(created.tags.is_empty());

    let read = svc.read_post(ReadPostRequest { id: text(ID_C) }, &store).unwrap();
    assert_eq!(read.title, "title");

    let mut changed = read;
    changed.title = "new".to_string();
    let updated = svc
        .update_post(UpdatePostRequest { post: Some(changed) }, &mut store, at(50))
        .unwrap();
    assert_eq!(updated.title, "new");
    assert_eq!(updated.created_at, Some(WireTimestamp { seconds: 42, nanos: 0 }));
    assert_eq!(updated.updated_at, Some(WireTimestamp { seconds: 50, nanos: 0 }));

    assert_eq!(svc.delete_post(DeletePostRequest { id: text(ID_C) }, &mut store), Ok(()));
    assert!(matches!(
        svc.read_post(ReadPostRequest { id: text(ID_C) }, &store),
        Err(RepoError::NotFound)
    ));
}

#[test]
fn service_rejects_missing_post() {
    let svc = MyPostService::new();
    let mut store = PostStore::new(at(0));
    assert!(matches!(
        svc.create_post(CreatePostRequest { post: None }, &mut store, ID_A, at(1)),
        Err(RepoError::InvalidArgument)
    ));
    assert!(matches!(
        svc.update_post(UpdatePostRequest { post: None }, &mut store, at(1)),
        Err(RepoError::InvalidArgument)
    ));
    assert_eq!(store.len(), 0);
}

#[test]
fn service_list_passes_stale_cursor_on_as_not_found() {
    let svc = MyPostService::default();
    let store = store_abc();
    let r = svc.list_post(ListPostRequest { page_token: text(0x99), page_size: 2 }, &store);
    assert!(matches!(r, Err(RepoError::NotFound)));
    let bad = svc.list_post(ListPostRequest { page_token: "x".to_string(), page_size: 2 }, &store);
    assert!(matches!(bad, Err(RepoError::InvalidArgument)));
    let ok = svc
        .list_post(ListPostRequest { page_token: String::new(), page_size: 2 }, &store)
        .unwrap();
    assert_eq!(ok.posts.len(), 2);
    assert_eq!(ok.posts[0].id, text(ID_A));
    assert_eq!(ok.next_page_token, text(ID_B));
}

#[test]
fn service_list_of_pre_epoch_post_is_internal() {
    let svc = MyPostService::new();
    let mut store = PostStore::new(NativeTime::new(-100, 0));
    create_post(&new_post("old", "x"), &mut store, ID_A, NativeTime::new(-50, 0)).unwrap();
    let r = svc.list_post(ListPostRequest { page_token: String::new(), page_size: 2 }, &store);
    assert!(matches!(r, Err(RepoError::Internal)));
}

#[test]
fn parse_post_id_accepts_only_canonical_text() {
    assert_eq!(parse_post_id("936da01f-9abd-4d9d-80c7-02af85c822a8"), Ok(ID_A));
    assert_eq!(parse_post_id("936DA01F-9ABD-4D9D-80C7-02AF85C822A8"), Err(RepoError::InvalidArgument));
    assert_eq!(parse_post_id("936da01f9abd4d9d80c702af85c822a8"), Err(RepoError::InvalidArgument));
    assert_eq!(
        parse_post_id("urn:uuid:936da01f-9abd-4d9d-80c7-02af85c822a8"),
        Err(RepoError::InvalidArgument)
    );
    assert_eq!(parse_post_id(""), Err(RepoError::InvalidArgument));
    assert_eq!(parse_post_id(&text(ID_C)), Ok(ID_C));
    assert_eq!(parse_post_id("936da01f-9abd-4d9d-80c7"), Err(RepoError::InvalidArgument));
    assert_eq!(parse_post_id("zz6da01f-9abd-4d9d-80c7-02af85c822a8"), Err(RepoError::InvalidArgument));
}

#[test]
fn deleted_id_is_never_reused() {
    let mut store = PostStore::new(at(0));
    create_post(&new_post("a", "b"), &mut store, 7, at(10)).unwrap();
    delete_post(text(7), &mut store).unwrap();
    assert_eq!(store.len(), 0);
    let again = create_post(&new_post("c", "d"), &mut store, 7, at(20));
    assert!(matches!(again, Err(RepoError::Internal)));
    assert_eq!(store.len(), 0);
}

#[test]
fn list_plan_reads_the_token() {
    assert_eq!(list_plan(""), Ok(None));
    assert_eq!(list_plan(&text(ID_B)), Ok(Some(ID_B)));
    assert_eq!(list_plan("garbage"), Err(RepoError::InvalidArgument));
}

#[test]
fn page_from_rows_sets_cursor_only_on_full_page() {
    let row = |id: u128| Post {
        id,
        title: String::new(),
        body: String::new(),
        created_at: at(1),
        updated_at: at(1),
    };
    let full = page_from_rows(vec![row(ID_A), row(ID_B)], 2);
    assert_eq!(ids(&full), vec![ID_A, ID_B]);
    assert_eq!(full.next_page_token, Some(text(ID_B)));
    let short = page_from_rows(vec![row(ID_A)], 2);
    assert_eq!(short.next_page_token, None);
    let empty = page_from_rows(Vec::new(), 0);
    assert_eq!(empty.next_page_token, None);
}

#[test]
fn list_all_posts_pages_through_everything() {
    let mut store = PostStore::new(at(0));
    for n in 1..=5u128 {
        create_post(&new_post("t", "b"), &mut store, n, at(n as i64)).unwrap();
    }
    for k in [1u32, 2, 3, 5, 8] {
        let all: Vec<u128> = list_all_posts(&store, k).iter().map(|p| p.id).collect();
        assert_eq!(all, vec![5, 4, 3, 2, 1]);
    }
    assert!(list_all_posts(&store, 0).is_empty());
}
