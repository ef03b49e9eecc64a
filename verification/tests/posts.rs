use chat_rs::posts::{day_label, page_posts, DayLabel, GroupCursor, Post, Timestamp, MESSAGE_GROUP_MAX};

fn post(id: u128, at: i64) -> Post {
    Post {
        id,
        author_id: 1,
        author_name: "ann".to_string(),
        content: String::new(),
        created_at: Timestamp { seconds: at, nanos: 0 },
        text_channel_id: 2,
        edited: false,
    }
}

#[test]
fn page_of_history_oldest_first() {
    // fetched newest first, one more than the limit: older posts remain
    let (page, next) = page_posts(vec![post(5, 50), post(4, 40), post(3, 30)], 2);
    assert_eq!(page.iter().map(|p| p.id).collect::<Vec<_>>(), vec![4, 5]);
    assert_eq!(next, Some(Timestamp { seconds: 40, nanos: 0 }));
    // the whole rest fits: no continuation
    let (page, next) = page_posts(vec![post(2, 20), post(1, 10)], 2);
    assert_eq!(page.iter().map(|p| p.id).collect::<Vec<_>>(), vec![1, 2]);
    assert_eq!(next, None);
    let (page, next) = page_posts(vec![], 0);
    assert!(page.is_empty() && next.is_none());
}

#[test]
fn groups_break_on_author_gap_day_and_size() {
    let ann = "ann".to_string();
    let bob = "bob".to_string();
    let t = |s: i64| Timestamp { seconds: s, nanos: 0 };
    let mut c = GroupCursor::new();
    let h = c.next_row(1, &ann, t(0));
    assert!(h.new_day && h.show_name);
    assert!(!c.next_row(1, &ann, t(60)).show_name);
    assert!(c.next_row(1, &bob, t(61)).show_name);
    // a pause of five minutes starts a new group
    assert!(!c.next_row(1, &bob, t(360)).show_name);
    assert!(c.next_row(1, &bob, t(660)).show_name);
    // a new day always shows a divider and the name
    let h = c.next_row(2, &bob, t(661));
    assert!(h.new_day && h.show_name);
    // at most MESSAGE_GROUP_MAX rows per group
    let mut c = GroupCursor::new();
    assert!(c.next_row(1, &ann, t(0)).show_name);
    for i in 1..MESSAGE_GROUP_MAX {
        assert!(!c.next_row(1, &ann, t(i as i64)).show_name);
    }
    assert!(c.next_row(1, &ann, t(100)).show_name);
}

#[test]
fn day_divider_labels() {
    assert_eq!(day_label(100, 100), DayLabel::Today);
    assert_eq!(day_label(100, 99), DayLabel::Yesterday);
    assert_eq!(day_label(100, 98), DayLabel::Date);
    assert_eq!(day_label(100, 101), DayLabel::Date);
}
