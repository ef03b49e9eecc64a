use chat_rs::convert::{
    id_to_string, parse_id, server_channels, timestamp_from_proto, timestamp_into_proto, Channel, ChannelProto,
    ChannelRow, ChannelType, ConvertError, DisplayUserProto, GetPostsRequest, GetPostsRequestProto, MeResponseProto,
    MeReturn, ServerProto, SetChannelMuteRequest, SetChannelMuteRequestProto, TimestampProto, Server,
};
use chat_rs::domain::User;
use chat_rs::posts::Timestamp;

const ID: &str = "67e55044-10b1-426f-9247-bb680e5fe0c8";
const ID_VALUE: u128 = 0x67e5504410b1426f9247bb680e5fe0c8;

#[test]
fn ids_round_trip() {
    assert_eq!(parse_id(&ID.to_string()), Ok(ID_VALUE));
    assert_eq!(id_to_string(ID_VALUE), ID);
    assert_eq!(parse_id(&id_to_string(5)), Ok(5));
    // other formats the uuid crate writes are accepted too
    assert_eq!(parse_id(&"67e5504410b1426f9247bb680e5fe0c8".to_string()), Ok(ID_VALUE));
    assert_eq!(parse_id(&"not-a-uuid".to_string()), Err(ConvertError::InvalidId));
    assert_eq!(ConvertError::InvalidId.message(), "failed to parse id");
    assert_eq!(ConvertError::MissingUsername.message(), "response doesn't include username");
}

#[test]
fn channel_types_use_wire_codes() {
    assert_eq!(ChannelType::Text.into_proto(), 1);
    assert_eq!(ChannelType::Voice.into_proto(), 2);
    assert_eq!(ChannelType::try_from_proto(2), Ok(ChannelType::Voice));
    assert_eq!(ChannelType::try_from_proto(0), Err(ConvertError::InvalidChannelType));
}

#[test]
fn server_decoding_reports_first_bad_channel() {
    let good = ChannelProto { id: ID.to_string(), name: "general".to_string(), kind: 1, muted: true };
    let s = Server::try_from_proto(ServerProto { id: ID.to_string(), name: "g".to_string(), channels: vec![good] })
        .expect("decodes");
    assert_eq!(s.id, ID_VALUE);
    assert_eq!(s.channels.len(), 1);
    assert!(s.channels[0].muted);
    assert_eq!(s.channels[0].kind, ChannelType::Text);
    let bad_kind = ChannelProto { id: ID.to_string(), name: "x".to_string(), kind: 9, muted: false };
    let bad_id = ChannelProto { id: "x".to_string(), name: "y".to_string(), kind: 9, muted: false };
    let r = Server::try_from_proto(ServerProto { id: ID.to_string(), name: "g".to_string(), channels: vec![bad_kind, bad_id] });
    assert_eq!(r.err(), Some(ConvertError::InvalidChannelType));
    let r = Server::try_from_proto(ServerProto { id: "nope".to_string(), name: "g".to_string(), channels: vec![] });
    assert_eq!(r.err(), Some(ConvertError::InvalidId));
    let c = Channel { id: 7, name: "v".to_string(), kind: ChannelType::Voice, muted: false }.into_proto();
    assert_eq!((c.kind, c.name.as_str()), (2, "v"));
    assert_eq!(Channel::try_from_proto(c).map(|c| c.id), Ok(7));
}

#[test]
fn mute_request_and_users() {
    let p = SetChannelMuteRequest { text_channel_id: 3, muted: true }.into_proto();
    assert_eq!(SetChannelMuteRequest::try_from_proto(p), Ok(SetChannelMuteRequest { text_channel_id: 3, muted: true }));
    let bad = SetChannelMuteRequestProto { text_channel_id: "?".to_string(), muted: false };
    assert_eq!(SetChannelMuteRequest::try_from_proto(bad), Err(ConvertError::InvalidId));
    let u = User::try_from_proto(User { id: 9, name: "ann".to_string() }.into_proto()).unwrap();
    assert_eq!((u.id, u.name.as_str()), (9, "ann"));
    let r = User::try_from_proto(DisplayUserProto { id: "?".to_string(), name: "ann".to_string() });
    assert_eq!(r.err(), Some(ConvertError::InvalidIdentifierFormat));
}

#[test]
fn profile_needs_id_and_name() {
    let ok = MeReturn::try_from_proto(MeResponseProto { username: "ann".to_string(), identifier: ID.to_string() }).unwrap();
    assert_eq!(ok.user_id, ID_VALUE);
    let no_name = MeReturn::try_from_proto(MeResponseProto { username: String::new(), identifier: ID.to_string() });
    assert_eq!(no_name.err(), Some(ConvertError::MissingUsername));
    let no_id = MeReturn::try_from_proto(MeResponseProto { username: "ann".to_string(), identifier: "x".to_string() });
    assert_eq!(no_id.err(), Some(ConvertError::InvalidIdentifier));
    let p = MeReturn { username: "bo".to_string(), user_id: 1 }.into_proto();
    assert_eq!(p.identifier, "00000000-0000-0000-0000-000000000001");
}

#[test]
fn timestamps() {
    let t = timestamp_from_proto(TimestampProto { seconds: 1_700_000_000, nanos: 5 });
    assert_eq!(t, Some(Timestamp { seconds: 1_700_000_000, nanos: 5 }));
    assert_eq!(timestamp_from_proto(TimestampProto { seconds: 10, nanos: -3 }), Some(Timestamp { seconds: 10, nanos: 0 }));
    // a leap-second nanosecond value only at the end of a minute
    assert_eq!(timestamp_from_proto(TimestampProto { seconds: 10, nanos: 1_500_000_000 }), None);
    assert!(timestamp_from_proto(TimestampProto { seconds: 59, nanos: 1_500_000_000 }).is_some());
    assert_eq!(timestamp_into_proto(Timestamp { seconds: 4, nanos: 7 }), TimestampProto { seconds: 4, nanos: 7 });
}

#[test]
fn history_request_errors() {
    let r = GetPostsRequest::try_from_proto(GetPostsRequestProto {
        text_channel_id: "x".to_string(),
        limit: 50,
        starting_before_timestamp: None,
    });
    assert_eq!(r, Err(ConvertError::InvalidTextChannelId));
    let r = GetPostsRequest::try_from_proto(GetPostsRequestProto {
        text_channel_id: ID.to_string(),
        limit: 50,
        starting_before_timestamp: Some(TimestampProto { seconds: 3, nanos: 0 }),
    });
    assert_eq!(
        r,
        Ok(GetPostsRequest {
            text_channel_id: ID_VALUE,
            limit: 50,
            starting_before_timestamp: Some(Timestamp { seconds: 3, nanos: 0 })
        })
    );
}

#[test]
fn channel_listing_puts_voice_first() {
    let voice = vec![ChannelRow { id: 1, name: "lobby".to_string() }];
    let text = vec![ChannelRow { id: 2, name: "general".to_string() }, ChannelRow { id: 3, name: "memes".to_string() }];
    let cs = server_channels(voice, text, &vec![3]);
    let summary: Vec<(u128, ChannelType, bool)> = cs.iter().map(|c| (c.id, c.kind, c.muted)).collect();
    assert_eq!(summary, vec![(1, ChannelType::Voice, false), (2, ChannelType::Text, false), (3, ChannelType::Text, true)]);
}

#[test]
fn id_text_is_hyphenated_lower_case_hex() {
    let s = id_to_string(0x0123_4567_89ab_cdef_0123_4567_89ab_cdef);
    assert_eq!(s, "01234567-89ab-cdef-0123-456789abcdef");
    assert_eq!(id_to_string(0), "00000000-0000-0000-0000-000000000000");
    assert_eq!(parse_id(&s), Ok(0x0123_4567_89ab_cdef_0123_4567_89ab_cdef));
}

#[test]
fn id_formats_accepted_by_the_parser() {
    let v = 0x0123_4567_89ab_cdef_0123_4567_89ab_cdef;
    assert_eq!(parse_id(&"0123456789ABCDEF0123456789abcdef".to_string()), Ok(v));
    assert_eq!(parse_id(&"{01234567-89ab-cdef-0123-456789abcdef}".to_string()), Ok(v));
    assert_eq!(parse_id(&"URN:uuid:01234567-89ab-cdef-0123-456789abcdef".to_string()), Ok(v));
    assert_eq!(parse_id(&"01234567-89ab-cdef-0123-456789abcdeg".to_string()), Err(ConvertError::InvalidId));
    assert_eq!(parse_id(&"0123456789-ab-cdef-0123-456789abcdef".to_string()), Err(ConvertError::InvalidId));
    assert_eq!(parse_id(&"".to_string()), Err(ConvertError::InvalidId));
}
