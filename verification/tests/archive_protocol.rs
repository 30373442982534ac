use webrtc_archive_player::archive_protocol::{
    classify_server_message, drop_buffer, get_archive_fragment, get_ranges, is_meta_message, play_stream,
    stop_stream, EmptyData, ServerMessage, ServerMessageKind,
};

#[test]
fn get_ranges_carries_the_period() {
    let r = get_ranges(Some(1704067200000), None);
    assert_eq!(r.typ, "get_ranges");
    assert_eq!(r.data.start_time, Some(1704067200000));
    assert_eq!(r.data.end_time, None);
}

#[test]
fn get_archive_fragment_asks_for_a_key_frame() {
    let r = get_archive_fragment(1704067200000, 60000, true);
    assert_eq!(r.typ, "get_archive_fragment");
    assert_eq!(r.data.start_time, 1704067200000);
    assert_eq!(r.data.duration, 60000);
    assert_eq!(r.data.key, Some(true));
    assert_eq!(r.data.type_meta, None);
}

#[test]
fn empty_commands_carry_an_empty_object() {
    let d = drop_buffer();
    assert_eq!(d.typ, "drop_buffer");
    assert_eq!(d.data, EmptyData {});
    assert_eq!(play_stream().typ, "play_stream");
    assert_eq!(play_stream().data, EmptyData {});
    assert_eq!(stop_stream().typ, "stop_stream");
    assert_eq!(stop_stream().data, EmptyData {});
}

#[test]
fn meta_messages_are_recognised() {
    assert!(is_meta_message("{\"type\":\"meta\",\"data\":{}}"));
    assert!(!is_meta_message("{\"type\":\"ranges\",\"data\":{}}"));
    assert!(!is_meta_message("{\"type\": \"meta\"}"));
}

#[test]
fn server_messages_are_classified() {
    let m = |typ: Option<&str>, data: bool, error: Option<&str>| ServerMessage {
        typ: typ.map(|s| s.to_string()),
        data: if data { Some(serde_json::Value::Null) } else { None },
        error: error.map(|s| s.to_string()),
    };
    assert_eq!(classify_server_message(&m(None, false, Some("Not Found ranges"))), ServerMessageKind::ServerError);
    assert_eq!(classify_server_message(&m(Some("ranges"), true, Some("x"))), ServerMessageKind::ServerError);
    assert_eq!(classify_server_message(&m(Some("ranges"), true, None)), ServerMessageKind::Ranges);
    assert_eq!(classify_server_message(&m(Some("archive_fragment"), true, None)), ServerMessageKind::ArchiveFragment);
    assert_eq!(classify_server_message(&m(Some("play"), true, None)), ServerMessageKind::Unhandled);
    assert_eq!(classify_server_message(&m(Some("play"), false, None)), ServerMessageKind::MissingTypeOrData);
    assert_eq!(classify_server_message(&m(None, true, None)), ServerMessageKind::MissingTypeOrData);
}
