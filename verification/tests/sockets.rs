use chat_rs::domain::User;
use chat_rs::posts::Timestamp;
use chat_rs::sockets::{ClientText, Dispatch, SocketManager};

#[test]
fn typing_fans_out_to_everyone_else() {
    let mut m: SocketManager<&'static str> = SocketManager::new();
    m.add(1, "a");
    m.add(2, "b");
    m.add(3, "c");
    let mut others = m.targets_without_self(2);
    others.sort();
    assert_eq!(others, vec![1, 3]);
    let mut all = m.targets_with_self();
    all.sort();
    assert_eq!(all, vec![1, 2, 3]);
    assert_eq!(m.sender(3), Some(&"c"));
    m.remove(3);
    assert_eq!(m.sender(3), None);
    let mut left = m.targets_without_self(9);
    left.sort();
    assert_eq!(left, vec![1, 2]);
}

#[test]
fn lone_sender_reaches_nobody() {
    let mut m: SocketManager<u8> = SocketManager::new();
    m.add(5, 0);
    assert!(m.targets_without_self(5).is_empty());
    assert_eq!(m.targets_with_self(), vec![5]);
}

#[test]
fn dispatch_routes_each_message_kind() {
    let mut m: SocketManager<u8> = SocketManager::new();
    m.add(1, 10);
    m.add(2, 20);
    m.add(3, 30);
    let user = User { id: 99, name: "ana".to_string() };
    let now = Timestamp { seconds: 1_700_000_000, nanos: 5 };

    match m.dispatch(2, &user, ClientText::CreatePost { id: 7, content: "hi".to_string(), text_channel_id: 40 }, now, 0) {
        Dispatch::StoreAndBroadcast { mut to, post, text_channel_id } => {
            to.sort();
            assert_eq!(to, vec![1, 2, 3]);
            assert_eq!(post.id, 7);
            assert_eq!(post.author_name, "ana");
            assert_eq!(post.content, "hi");
            assert_eq!(post.created_at, now);
            assert_eq!(text_channel_id, 40);
        }
        _ => panic!("a post is stored and broadcast"),
    }

    match m.dispatch(2, &user, ClientText::Ping { timestamp: 123 }, now, 456) {
        Dispatch::Pong { timestamp, server_received_at } => {
            assert_eq!(timestamp, 123);
            assert_eq!(server_received_at, 456);
        }
        _ => panic!("a ping is answered"),
    }

    match m.dispatch(2, &user, ClientText::Typing { text_channel_id: 40 }, now, 0) {
        Dispatch::Typing { mut to, from, text_channel_id } => {
            to.sort();
            assert_eq!(to, vec![1, 3]);
            assert_eq!(from.id, 99);
            assert_eq!(text_channel_id, 40);
        }
        _ => panic!("typing goes to the others"),
    }
}
