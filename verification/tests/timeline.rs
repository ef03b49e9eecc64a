use chat_rs::posts::{Post, Timestamp};
use chat_rs::timeline::{order_by_created, RenderedPost, Timeline};
use std::cmp::Ordering;

fn ts(seconds: i64, nanos: u32) -> Timestamp {
    Timestamp { seconds, nanos }
}

fn post(id: u128, author_id: u128, content: &str, at: Timestamp) -> Post {
    Post {
        id,
        author_id,
        author_name: format!("user{author_id}"),
        content: content.to_string(),
        created_at: at,
        text_channel_id: 7,
        edited: false,
    }
}

fn ids(t: &Timeline, candidates: &[u128]) -> Vec<u128> {
    candidates.iter().copied().filter(|id| t.contains(*id)).collect()
}

#[test]
fn order_is_never_equal() {
    let a = RenderedPost::Sent(post(1, 1, "a", ts(10, 5)));
    let b = RenderedPost::Sent(post(2, 1, "b", ts(10, 5)));
    let c = RenderedPost::Sent(post(3, 1, "c", ts(10, 6)));
    assert_eq!(order_by_created(&a, &b), Ordering::Less);
    assert_eq!(order_by_created(&c, &a), Ordering::Greater);
    assert_eq!(order_by_created(&a, &c), Ordering::Less);
    assert_eq!(a.created_at(), ts(10, 5));
}

#[test]
fn first_page_keeps_order_and_files_by_id() {
    let t = Timeline::from_posts(vec![
        post(1, 1, "one", ts(1, 0)),
        post(2, 2, "two", ts(2, 0)),
        post(1, 1, "one again", ts(1, 0)),
    ]);
    assert!(t.contains(1));
    assert!(t.contains(2));
    assert!(!t.contains(3));
    // a repeated id keeps its first place and takes the later post
    assert_eq!(t.sent_content(1), Some("one again".to_string()));
    assert_eq!(t.last_own_post(1), Some(1));
    assert_eq!(t.last_own_post(2), Some(2));
}

#[test]
fn delivered_post_replaces_local_copy() {
    let mut t = Timeline::from_posts(vec![post(1, 1, "hi", ts(1, 0))]);
    t.push_local(RenderedPost::Sending {
        id: 9,
        created_at: ts(5, 0),
        content: "mine".to_string(),
        name: "me".to_string(),
    });
    // still sending: not editable
    assert_eq!(t.sent_content(9), None);
    let fresh = t.receive(post(9, 3, "mine", ts(4, 0)));
    assert!(!fresh);
    assert_eq!(t.sent_content(9), Some("mine".to_string()));
    assert_eq!(t.last_own_post(3), Some(9));
}

#[test]
fn new_delivery_is_reported_fresh() {
    let mut t = Timeline::from_posts(vec![post(1, 1, "a", ts(1, 0)), post(2, 1, "b", ts(3, 0))]);
    assert!(t.receive(post(3, 2, "between", ts(2, 0))));
    assert!(t.contains(3));
    // the latest post by author 1 is still post 2 (created last)
    assert_eq!(t.last_own_post(1), Some(2));
    assert_eq!(t.last_own_post(2), Some(3));
}

#[test]
fn delete_undoes_fresh_delivery() {
    let mut t = Timeline::from_posts(vec![post(1, 1, "a", ts(1, 0))]);
    assert!(t.receive(post(2, 1, "b", ts(2, 0))));
    t.remove(2);
    assert_eq!(ids(&t, &[1, 2]), vec![1]);
    assert_eq!(t.last_own_post(1), Some(1));
    // removing an id that is not there changes nothing
    t.remove(42);
    assert_eq!(ids(&t, &[1, 2, 42]), vec![1]);
}

#[test]
fn edit_touches_only_delivered_posts() {
    let mut t = Timeline::from_posts(vec![post(1, 1, "old", ts(1, 0))]);
    t.push_local(RenderedPost::Errored {
        id: 2,
        created_at: ts(2, 0),
        content: "failed".to_string(),
        name: "me".to_string(),
    });
    t.edit(1, "new".to_string());
    t.edit(2, "ignored".to_string());
    t.edit(3, "absent".to_string());
    assert_eq!(t.sent_content(1), Some("new".to_string()));
    assert_eq!(t.sent_content(2), None);
    assert!(!t.contains(3));
}

#[test]
fn older_page_goes_before_and_shown_version_wins() {
    let mut t = Timeline::from_posts(vec![post(5, 1, "shown", ts(5, 0))]);
    t.edit(5, "edited".to_string());
    t.prepend_page(vec![post(3, 2, "older", ts(3, 0)), post(5, 1, "stale", ts(5, 0))]);
    assert!(t.contains(3));
    assert_eq!(t.sent_content(5), Some("edited".to_string()));
    // the latest post by author 2 is the prepended one
    assert_eq!(t.last_own_post(2), Some(3));
    // the latest overall is still post 5, so author 1's last post is 5
    assert_eq!(t.last_own_post(1), Some(5));
}

#[test]
fn last_own_post_skips_local_copies() {
    let mut t = Timeline::from_posts(vec![post(1, 4, "sent", ts(1, 0))]);
    t.push_local(RenderedPost::Sending {
        id: 2,
        created_at: ts(2, 0),
        content: "pending".to_string(),
        name: "me".to_string(),
    });
    assert_eq!(t.last_own_post(4), Some(1));
    assert_eq!(t.last_own_post(5), None);
}
