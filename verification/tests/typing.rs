use chat_rs::typing::TypingTracker;

#[test]
fn names_keep_the_order_people_started() {
    let mut t = TypingTracker::new();
    let a = t.typing(1, 10, "ann".to_string());
    let b = t.typing(1, 11, "bob".to_string());
    assert_eq!((a, b), (1, 2));
    // a refresh keeps ann's place
    t.typing(1, 10, "ann".to_string());
    assert_eq!(t.names(1), vec!["ann".to_string(), "bob".to_string()]);
    assert!(t.names(2).is_empty());
}

#[test]
fn refreshed_peer_survives_old_expiry() {
    let mut t = TypingTracker::new();
    let old = t.typing(1, 10, "ann".to_string());
    let new = t.typing(1, 10, "ann".to_string());
    t.expire(1, 10, old);
    assert_eq!(t.names(1), vec!["ann".to_string()]);
    t.expire(1, 10, new);
    assert!(t.names(1).is_empty());
    // expiring in an unknown channel is harmless
    t.expire(9, 10, new);
    assert!(t.names(9).is_empty());
}

#[test]
fn delivered_post_clears_by_name() {
    let mut t = TypingTracker::new();
    t.typing(1, 10, "ann".to_string());
    t.typing(1, 11, "bob".to_string());
    t.post_delivered(1, &"ann".to_string());
    assert_eq!(t.names(1), vec!["bob".to_string()]);
    t.post_delivered(1, &"bob".to_string());
    assert!(t.names(1).is_empty());
    t.post_delivered(3, &"bob".to_string());
    assert!(t.names(3).is_empty());
}
