use comment_board::comment::CommentInput;
use comment_board::notify::{build_push_data, response_after_notify, NotifyOutcome};
use comment_board::service::rocket;
use comment_board::store::CommentStore;

fn input(page: &str, user: &str, text: &str) -> CommentInput {
    CommentInput {
        page: page.to_owned(),
        user: user.to_owned(),
        text: text.to_owned(),
        email: None,
    }
}

#[test]
fn test() {
    let mut service = rocket();

    let count = service.handle_list(&"aaa".to_owned()).len();

    for i in 1_usize..=20 {
        let page = "aaa".to_string();
        let user = "user1".to_string();
        let text = format!("msg msg {}", i);
        let msg = input(&page, &user, &text);

        let response = service.handle_post(&msg);
        assert_eq!(response.page, page);
        assert_eq!(response.user, user);
        assert_eq!(response.text, text);

        let list = service.handle_list(&"aaa".to_owned());
        assert_eq!(list.len(), count + i);
    }
}

#[test]
fn first_insert_gets_id_one() {
    let mut service = rocket();
    let c = service.handle_post(&input("aaa", "u1", "hello"));
    assert_eq!(c.id, 1);
    assert_eq!(c.page, "aaa");
    assert_eq!(c.user, "u1");
    assert_eq!(c.text, "hello");
    assert!(!c.date.is_empty());

    let listed = service.handle_list(&"aaa".to_owned());
    assert_eq!(listed.len(), 1);
    assert_eq!(listed[0].id, 1);
    assert_eq!(listed[0].date, c.date);
}

#[test]
fn unknown_page_lists_empty() {
    let service = rocket();
    let listed = service.handle_list(&"nonexistent-page".to_owned());
    assert!(listed.is_empty());
}

#[test]
fn ids_strictly_increase_across_pages() {
    let mut service = rocket();
    let mut last: i64 = 0;
    for i in 0..10 {
        let page = if i % 2 == 0 { "odd" } else { "even" };
        let c = service.handle_post(&input(page, "u", "t"));
        assert!(c.id > last);
        last = c.id;
    }
}

#[test]
fn listing_filters_by_page_and_keeps_order() {
    let mut store = CommentStore::new();
    let date = "2024-02-29 12:34:56".to_owned();
    store.insert(&input("a", "u1", "first"), &date);
    store.insert(&input("b", "u2", "other page"), &date);
    store.insert(&input("a", "u3", "second"), &date);
    store.insert(&input("a", "u4", "third"), &date);

    let listed = store.list_by_page(&"a".to_owned());
    assert_eq!(listed.len(), 3);
    assert_eq!(listed[0].text, "first");
    assert_eq!(listed[1].text, "second");
    assert_eq!(listed[2].text, "third");
    assert!(listed[0].id < listed[1].id && listed[1].id < listed[2].id);
    for c in &listed {
        assert_eq!(c.page, "a");
    }
}

#[test]
fn listing_never_shows_email() {
    let mut store = CommentStore::new();
    let date = "2024-02-29 12:34:56".to_owned();
    let with_email = CommentInput {
        page: "a".to_owned(),
        user: "u".to_owned(),
        text: "t".to_owned(),
        email: Some("u@example.com".to_owned()),
    };
    let echoed = store.insert(&with_email, &date);
    // the insert response round-trips the email ...
    assert_eq!(echoed.email.as_deref(), Some("u@example.com"));
    // ... but the listing withholds it
    let listed = store.list_by_page(&"a".to_owned());
    assert_eq!(listed.len(), 1);
    assert!(listed[0].email.is_none());
}

#[test]
fn same_content_different_times_gives_distinct_rows() {
    let mut service = rocket();
    let msg = input("aaa", "u", "same text");
    let c1 = service.handle_post_at(&msg, 1_700_000_000);
    let c2 = service.handle_post_at(&msg, 1_700_000_001);
    assert_ne!(c1.id, c2.id);
    assert_ne!(c1.date, c2.date);
    assert_eq!(service.handle_list(&"aaa".to_owned()).len(), 2);
}

#[test]
fn notify_failure_leaves_insert_outcome_alone() {
    let mut service = rocket();
    let created = service.handle_post(&input("aaa", "u1", "hello"));
    let rows_before = service.handle_list(&"aaa".to_owned()).len();

    // a failed notification attempt (e.g. an unreachable endpoint) ...
    let reported = response_after_notify(created, NotifyOutcome::Failed);
    // ... neither alters the reported comment nor the stored rows
    assert_eq!(reported.id, 1);
    assert_eq!(reported.page, "aaa");
    assert_eq!(reported.text, "hello");
    assert_eq!(service.handle_list(&"aaa".to_owned()).len(), rows_before);

    let delivered = response_after_notify(reported, NotifyOutcome::Delivered);
    assert_eq!(delivered.id, 1);
}

#[test]
fn push_payload_title_and_body() {
    let mut service = rocket();
    let c = service.handle_post(&input("mypage", "alice", "hi there"));
    let p = build_push_data(&c, &"key-1234".to_owned());
    assert_eq!(p.title, "alice on mypage");
    assert_eq!(p.body, "hi there");
    assert_eq!(p.device_key, "key-1234");
}
