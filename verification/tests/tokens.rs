use chat_rs::tokens::{Retry, TokenStore};

#[test]
fn refused_request_is_retried_after_refresh() {
    let mut t = TokenStore::new();
    assert!(!t.has_tokens());
    assert_eq!(t.bearer(), None);
    t.refreshed("acc1".to_string(), "ref1".to_string());
    assert!(t.has_tokens());
    assert_eq!(t.bearer(), Some("Bearer acc1".to_string()));
    assert!(matches!(t.after_response(false), Retry::Done));
    match t.after_response(true) {
        Retry::Refresh(r) => assert_eq!(r, "ref1"),
        Retry::Done => panic!("refresh expected"),
    }
    t.refreshed("acc2".to_string(), "ref2".to_string());
    assert_eq!(t.bearer(), Some("Bearer acc2".to_string()));
}

#[test]
fn failed_refresh_ends_session() {
    let mut t = TokenStore::new();
    t.refreshed("a".to_string(), "r".to_string());
    t.refresh_failed();
    assert!(!t.has_tokens());
    assert_eq!(t.bearer(), None);
    assert!(matches!(t.after_response(true), Retry::Done));
}
