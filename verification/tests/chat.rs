use chat_rs::chat::{notification_summary, typing_indicator, Model, PostRef, PostState, ServersState};
use chat_rs::convert::{Channel, ChannelType, Server};
use chat_rs::domain::WindowState;
use chat_rs::posts::{Post, Timestamp};

fn channel(id: u128, name: &str, kind: ChannelType, muted: bool) -> Channel {
    Channel { id, name: name.to_string(), kind, muted }
}

fn servers() -> Vec<Server> {
    vec![Server {
        id: 100,
        name: "Guild".to_string(),
        channels: vec![
            channel(1, "voice", ChannelType::Voice, false),
            channel(2, "general", ChannelType::Text, false),
            channel(3, "quiet", ChannelType::Text, true),
        ],
    }]
}

fn post(id: u128, author_id: u128, channel: u128, at: i64) -> Post {
    Post {
        id,
        author_id,
        author_name: format!("user{author_id}"),
        content: format!("post {id}"),
        created_at: Timestamp { seconds: at, nanos: 0 },
        text_channel_id: channel,
        edited: false,
    }
}

fn loaded_model() -> Model {
    let mut m = Model::new();
    m.servers_loaded(Ok(servers()));
    m.select_text_channel(2, "general".to_string());
    m.initial_posts_loaded(2, vec![post(10, 1, 2, 1), post(11, 2, 2, 2)], Some(Timestamp { seconds: 1, nanos: 0 }));
    m
}

#[test]
fn servers_loaded_opens_first_text_channel() {
    let mut m = Model::new();
    m.begin_loading_servers();
    assert!(matches!(m.servers, ServersState::Loading));
    let r = m.servers_loaded(Ok(servers()));
    assert_eq!(r, Some((100, Some((2, "general".to_string())))));
    assert!(matches!(m.servers, ServersState::Loaded(_)));
    let mut empty = Model::new();
    assert_eq!(empty.servers_loaded(Ok(vec![])), None);
    let mut failed = Model::new();
    assert_eq!(failed.servers_loaded(Err(14)), None);
    assert!(matches!(failed.servers, ServersState::Failed(14)));
}

#[test]
fn selecting_a_channel_fetches_only_once() {
    let mut m = Model::new();
    assert!(m.select_text_channel(2, "general".to_string()));
    m.initial_posts_loaded(2, vec![], None);
    assert!(!m.select_text_channel(2, "general".to_string()));
    assert_eq!(m.viewing.as_ref().map(|v| v.id), Some(2));
}

#[test]
fn notification_only_when_not_looking_and_not_muted() {
    let m = loaded_model();
    let author = "ann".to_string();
    // focused on the channel itself: nothing
    assert_eq!(m.notification(WindowState::Focused, 2, &author), None);
    // window in the background: announced
    assert_eq!(
        m.notification(WindowState::NotFocused, 2, &author),
        Some("ann\n(Guild, #general)".to_string())
    );
    // muted channel: never
    assert_eq!(m.notification(WindowState::NotFocused, 3, &author), None);
    // a voice channel or an unknown channel: never
    assert_eq!(m.notification(WindowState::NotFocused, 1, &author), None);
    assert_eq!(m.notification(WindowState::NotFocused, 99, &author), None);
    assert_eq!(
        notification_summary(&"a".to_string(), &"b".to_string(), &"c".to_string()),
        "a\n(b, #c)"
    );
}

#[test]
fn echo_of_own_post_does_not_notify() {
    let mut m = loaded_model();
    m.select_text_channel(3, "quiet".to_string());
    m.initial_posts_loaded(3, vec![], None);
    m.select_text_channel(2, "general".to_string());
    let target = m.submission_target("hello", true).expect("target");
    assert_eq!(target.0, 2);
    m.record_submission(2, target.1, "hello".to_string(), "me".to_string(), true);
    // the server echoes the post back: replaces the local copy, no notification
    let mut echo = post(target.1, 5, 2, 3);
    echo.author_name = "me".to_string();
    assert_eq!(m.post_delivered(echo, WindowState::NotFocused), None);
    // a new post in a channel the user is not looking at (but muted): none either
    assert_eq!(m.post_delivered(post(50, 6, 3, 4), WindowState::NotFocused), None);
    // a new post in the open channel with the window unfocused: announced
    assert_eq!(
        m.post_delivered(post(51, 6, 2, 5), WindowState::NotFocused),
        Some("user6\n(Guild, #general)".to_string())
    );
    assert!(m.posts[&2].timeline.contains(51));
}

#[test]
fn submission_needs_text_connection_and_loaded_channel() {
    let m = loaded_model();
    assert!(m.submission_target("  \n\t", true).is_none());
    assert!(m.submission_target("hi", false).is_none());
    let mut unloaded = Model::new();
    unloaded.select_text_channel(8, "x".to_string());
    assert!(unloaded.submission_target("hi", true).is_none());
    // recording into an unloaded channel changes nothing
    unloaded.record_submission(8, 1, "hi".to_string(), "me".to_string(), false);
    assert!(unloaded.posts.is_empty());
}

#[test]
fn delivered_post_clears_its_author_typing() {
    let mut m = loaded_model();
    let seq = m.typing_started(2, 6, "user6".to_string());
    assert_eq!(seq, 1);
    assert_eq!(m.typing_names(), vec!["user6".to_string()]);
    m.post_delivered(post(60, 6, 2, 9), WindowState::Focused);
    assert!(m.typing_names().is_empty());
}

#[test]
fn typing_expiry_only_for_latest_notification() {
    let mut m = loaded_model();
    let first = m.typing_started(2, 6, "user6".to_string());
    let second = m.typing_started(2, 6, "user6".to_string());
    m.typing_expired(2, 6, first);
    assert_eq!(m.typing_names(), vec!["user6".to_string()]);
    m.typing_expired(2, 6, second);
    assert!(m.typing_names().is_empty());
}

#[test]
fn scrolling_to_top_asks_for_the_next_page() {
    let mut m = loaded_model();
    assert_eq!(m.scrolled_to_top(), Some((2, Timestamp { seconds: 1, nanos: 0 })));
    m.more_posts_loaded(2, vec![post(5, 1, 2, 0)], None);
    assert!(m.posts[&2].timeline.contains(5));
    assert_eq!(m.scrolled_to_top(), None);
    // a page for a channel that is not loaded is dropped
    m.more_posts_loaded(77, vec![post(6, 1, 77, 0)], None);
    assert!(!m.posts.contains_key(&77));
}

#[test]
fn editing_flow() {
    let mut m = loaded_model();
    assert_eq!(m.start_editing(10, 2), Some("post 10".to_string()));
    assert_eq!(m.editing, Some(PostRef { post_id: 10, text_channel_id: 2 }));
    // a blank save closes the editor and sends nothing
    assert_eq!(m.submit_edit("   ".to_string()), None);
    assert_eq!(m.editing, None);
    m.start_editing(10, 2);
    let r = m.submit_edit("changed".to_string());
    assert_eq!(r, Some((PostRef { post_id: 10, text_channel_id: 2 }, "changed".to_string())));
    assert_eq!(m.posts[&2].timeline.sent_content(10), Some("changed".to_string()));
    // nothing to save without an open editor
    assert_eq!(m.submit_edit("x".to_string()), None);
    // an unknown post cannot be edited
    assert_eq!(m.start_editing(99, 2), None);
    assert_eq!(m.editing, None);
}

#[test]
fn edit_last_own_post_needs_empty_input() {
    let mut m = loaded_model();
    assert_eq!(m.last_own_post(1), Some(PostRef { post_id: 10, text_channel_id: 2 }));
    assert_eq!(m.edit_last_own_post("draft", 1), None);
    assert_eq!(m.editing, None);
    let r = m.edit_last_own_post("", 1);
    assert_eq!(r, Some((PostRef { post_id: 10, text_channel_id: 2 }, "post 10".to_string())));
    assert_eq!(m.edit_last_own_post("", 42), None);
}

#[test]
fn delete_flow_with_and_without_shift() {
    let mut m = loaded_model();
    let t = PostRef { post_id: 10, text_channel_id: 2 };
    m.start_editing(10, 2);
    assert_eq!(m.request_delete(t), None);
    assert_eq!(m.confirming_delete, Some(t));
    m.escape_pressed();
    assert_eq!(m.confirming_delete, None);
    assert!(m.editing.is_some());
    m.request_delete(t);
    assert_eq!(m.confirm_delete(), Some(t));
    assert!(!m.posts[&2].timeline.contains(10));
    assert_eq!(m.editing, None);
    assert_eq!(m.confirm_delete(), None);
    m.set_shift_held(true);
    let t2 = PostRef { post_id: 11, text_channel_id: 2 };
    assert_eq!(m.request_delete(t2), Some(t2));
    assert!(!m.posts[&2].timeline.contains(11));
    m.escape_pressed();
    assert_eq!(m.editing, None);
}

#[test]
fn server_delete_closes_prompt_and_editor() {
    let mut m = loaded_model();
    m.start_editing(11, 2);
    m.request_delete(PostRef { post_id: 11, text_channel_id: 2 });
    m.post_deleted(11, 2);
    assert_eq!(m.editing, None);
    assert_eq!(m.confirming_delete, None);
    m.cancel_delete();
    m.start_editing(10, 2);
    m.cancel_edit();
    assert_eq!(m.editing, None);
}

#[test]
fn server_edit_marks_post() {
    let mut m = loaded_model();
    m.post_edited(10, "fixed".to_string(), 2);
    assert_eq!(m.posts[&2].timeline.sent_content(10), Some("fixed".to_string()));
    m.post_edited(10, "other channel".to_string(), 3);
    assert_eq!(m.posts[&2].timeline.sent_content(10), Some("fixed".to_string()));
}

#[test]
fn hover_tracking() {
    let mut m = Model::new();
    m.post_hovered(1);
    m.post_hovered(2);
    m.post_unhovered(1);
    assert_eq!(m.hovered_post, Some(2));
    m.post_unhovered(2);
    assert_eq!(m.hovered_post, None);
}

#[test]
fn channel_mute_toggles_first_match() {
    let mut m = Model::new();
    assert_eq!(m.toggle_channel_mute(2), None);
    m.servers_loaded(Ok(servers()));
    assert_eq!(m.toggle_channel_mute(2), Some(true));
    assert_eq!(m.toggle_channel_mute(3), Some(false));
    assert_eq!(m.toggle_channel_mute(2), Some(false));
    assert_eq!(m.toggle_channel_mute(404), None);
}

#[test]
fn typing_announcements_are_throttled() {
    let mut m = loaded_model();
    assert_eq!(m.input_changed(true, "h", 1_000, true), Some(2));
    assert_eq!(m.input_changed(true, "he", 2_000, true), None);
    assert_eq!(m.input_changed(true, "hel", 3_499, true), None);
    assert_eq!(m.input_changed(true, "hell", 3_500, true), Some(2));
    // no announcement for blank input, a cursor move, or without a connection
    assert_eq!(m.input_changed(true, "   ", 10_000, true), None);
    assert_eq!(m.input_changed(false, "hello", 10_000, true), None);
    assert_eq!(m.input_changed(true, "hello", 10_000, false), None);
    // sending re-arms the announcement
    m.record_submission(2, 77, "hello".to_string(), "me".to_string(), true);
    assert_eq!(m.input_changed(true, "x", 10_001, true), Some(2));
}

#[test]
fn typing_indicator_lines() {
    let n = |v: &[&str]| v.iter().map(|s| s.to_string()).collect::<Vec<String>>();
    assert_eq!(typing_indicator(&n(&[])), None);
    assert_eq!(typing_indicator(&n(&["a"])), Some("a is typing…".to_string()));
    assert_eq!(typing_indicator(&n(&["a", "b"])), Some("a and b are typing…".to_string()));
    assert_eq!(typing_indicator(&n(&["a", "b", "c"])), Some("a, b, and c are typing…".to_string()));
    assert_eq!(
        typing_indicator(&n(&["a", "b", "c", "d"])),
        Some("Several people are typing…".to_string())
    );
}

#[test]
fn post_rows_flags() {
    let mut m = loaded_model();
    m.record_submission(2, 90, "pending".to_string(), "user1".to_string(), true);
    m.post_edited(11, "edited".to_string(), 2);
    m.start_editing(11, 2);
    m.post_hovered(90);
    let rows = m.post_rows(2, Some(2), &vec![5, 5, 5]);
    assert_eq!(rows.len(), 3);
    // post 10 by user 1, first row of the day
    assert!(rows[0].header.new_day && rows[0].header.show_name && !rows[0].is_own && !rows[0].spaced);
    // post 11 by user 2 (me), edited and being edited: no menu while editing
    assert!(rows[1].header.show_name && rows[1].spaced && !rows[1].header.new_day);
    assert!(rows[1].is_own && rows[1].edited && rows[1].is_editing && !rows[1].has_menu);
    // the pending post: on its way, its time shown because it is hovered
    assert_eq!(rows[2].state, PostState::Sending);
    assert_eq!(rows[2].post_id, 90);
    assert!(rows[2].timestamp_shown && !rows[2].is_own);
    assert!(m.post_rows(42, None, &vec![]).is_empty());
}
