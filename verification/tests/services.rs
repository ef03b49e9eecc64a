use chat_rs::auth::StatusCode;
use chat_rs::convert::{ChannelRow, ChannelType};
use chat_rs::domain::User;
use chat_rs::navigation::{Navigation, Screen};
use chat_rs::posts::{Post, Timestamp};
use chat_rs::server_api::{seed_plan, MuteChange, PostsServer, ServerRows, ServerServer, UserServer, SEED_SERVER_NAME};

fn post(id: u128, at: i64) -> Post {
    Post {
        id,
        author_id: 1,
        author_name: "a".to_string(),
        content: String::new(),
        created_at: Timestamp { seconds: at, nanos: 0 },
        text_channel_id: 3,
        edited: false,
    }
}

#[test]
fn history_request_checks_in_order() {
    let e = PostsServer::check_access(0).unwrap_err();
    assert_eq!((e.code, e.message), (StatusCode::Unauthenticated, "Unauthenticated"));
    assert!(PostsServer::check_access(2).is_ok());
    let e = PostsServer::check_server(false).unwrap_err();
    assert_eq!((e.code, e.message), (StatusCode::NotFound, "Server not found"));
    assert!(PostsServer::check_server(true).is_ok());
    let e = PostsServer::page(Err(()), 50).unwrap_err();
    assert_eq!((e.code, e.message), (StatusCode::Internal, "Error occurred fetching posts."));
    let (page, next) = PostsServer::page(Ok(vec![post(3, 30), post(2, 20), post(1, 10)]), 2).unwrap();
    assert_eq!(page.iter().map(|p| p.id).collect::<Vec<_>>(), vec![2, 3]);
    assert_eq!(next, Some(Timestamp { seconds: 20, nanos: 0 }));
}

#[test]
fn server_list_assembly() {
    let rows = vec![ServerRows {
        id: 1,
        name: "g".to_string(),
        voice: vec![ChannelRow { id: 10, name: "lobby".to_string() }],
        text: vec![ChannelRow { id: 11, name: "general".to_string() }],
    }];
    let servers = ServerServer::servers(rows, &vec![11]);
    assert_eq!(servers.len(), 1);
    let cs = &servers[0].channels;
    assert_eq!((cs[0].id, cs[0].kind, cs[0].muted), (10, ChannelType::Voice, false));
    assert_eq!((cs[1].id, cs[1].kind, cs[1].muted), (11, ChannelType::Text, true));
    assert_eq!(ServerServer::servers_failed().message, "Error occurred fetching servers.");
}

#[test]
fn mute_requests() {
    assert_eq!(ServerServer::mute_change(true, false), MuteChange::Insert);
    assert_eq!(ServerServer::mute_change(true, true), MuteChange::Keep);
    assert_eq!(ServerServer::mute_change(false, true), MuteChange::Delete);
    assert_eq!(ServerServer::mute_failed().code, StatusCode::Internal);
}

#[test]
fn profile_lookup() {
    let me = UserServer::me(Ok(Some(User { id: 4, name: "dee".to_string() }))).unwrap();
    assert_eq!((me.user_id, me.username.as_str()), (4, "dee"));
    let e = UserServer::me(Ok(None)).unwrap_err();
    assert_eq!((e.code, e.message), (StatusCode::NotFound, "User not found."));
    let e = UserServer::me(Err(())).unwrap_err();
    assert_eq!((e.code, e.message), (StatusCode::Internal, "Unknown error occurred"));
    assert_eq!(UserServer::not_found().message, "User not found.");
}

#[test]
fn settings_visit_keeps_chat_state() {
    let mut nav = Navigation::new();
    assert!(matches!(nav.screen, Screen::Auth));
    nav.logged_in();
    if let Screen::Chat(m) = &mut nav.screen {
        m.select_text_channel(7, "general".to_string());
    }
    nav.go_to_settings();
    assert!(matches!(nav.screen, Screen::Settings));
    assert!(!nav.close_settings());
    match &nav.screen {
        Screen::Chat(m) => assert_eq!(m.viewing.as_ref().map(|v| v.id), Some(7)),
        _ => panic!("chat expected"),
    }
    // without a chat put aside, closing opens a fresh one to be loaded
    nav.go_to_settings();
    nav.stashed_chat = None;
    assert!(nav.close_settings());
    nav.log_out();
    assert!(matches!(nav.screen, Screen::Auth));
    assert!(nav.stashed_chat.is_none());
}

#[test]
fn seeding_fills_only_what_is_missing() {
    let users = vec![(1u128, true), (2, false), (3, false), (4, true)];
    let p = seed_plan(false, true, true, &users);
    assert!(p.create_server);
    assert_eq!(p.text_channels, vec![("mess-hall".to_string(), true), ("forge".to_string(), false)]);
    assert_eq!(p.voice_channels, vec!["Augmentation Chambers".to_string(), "Academy Network".to_string()]);
    assert_eq!(p.assign_admin, vec![2, 3]);
    assert_eq!(SEED_SERVER_NAME, "Intergalactic Federation");

    let p = seed_plan(true, false, false, &vec![(5, true)]);
    assert!(!p.create_server);
    assert!(p.text_channels.is_empty());
    assert!(p.voice_channels.is_empty());
    assert!(p.assign_admin.is_empty());
}
