use zeroclaw::encoding::encode_path_segment;
use zeroclaw::matrix::{
    api_error_result, JoinedRoomsStep, MESSAGE_EVENT_FILTER, MatrixHistoryTool, MatrixRoomsTool, RoomEvent, RoomInfo,
};

fn history_tool() -> MatrixHistoryTool {
    MatrixHistoryTool::new(
        "https://matrix.example.com".into(),
        "test_token".into(),
        Some("!test:example.com".into()),
    )
}

fn event(sender: Option<&str>, ts: Option<u64>, body: Option<&str>, msgtype: Option<&str>) -> RoomEvent {
    RoomEvent {
        sender: sender.map(String::from),
        origin_server_ts: ts,
        body: body.map(String::from),
        msgtype: msgtype.map(String::from),
    }
}

fn room(id: &str, name: Option<&str>, alias: Option<&str>) -> RoomInfo {
    RoomInfo { room_id: id.into(), name: name.map(String::from), alias: alias.map(String::from) }
}

// ── Path encoding ──

#[test]
fn matrix_history_encode_room_id() {
    assert_eq!(encode_path_segment("!room:matrix.example.com"), "%21room%3Amatrix.example.com");
}

#[test]
fn matrix_rooms_encode_room_id() {
    assert_eq!(encode_path_segment("!room:matrix.example.com"), "%21room%3Amatrix.example.com");
}

#[test]
fn encode_keeps_unreserved_and_encodes_bytes_of_utf8() {
    assert_eq!(encode_path_segment("AZaz09-._~"), "AZaz09-._~");
    assert_eq!(encode_path_segment("é/ ?#%"), "%C3%A9%2F%20%3F%23%25");
    assert_eq!(encode_path_segment(""), "");
}

// ── History tool ──

#[test]
fn history_name() {
    let tool = history_tool();
    assert_eq!(tool.name(), "matrix_history");
    assert!(tool.description().starts_with("Fetch recent message history"));
}

#[test]
fn history_new_drops_trailing_slashes() {
    let tool = MatrixHistoryTool::new("https://hs.example//".into(), "t".into(), None);
    assert_eq!(tool.homeserver(), "https://hs.example");
    assert_eq!(tool.authorization(), "Bearer t");
}

#[test]
fn missing_room_id_no_default() {
    let tool = MatrixHistoryTool::new("https://matrix.example.com".into(), "token".into(), None);
    let result = tool.plan_request(None, None);
    assert!(result.is_err());
    let message = match result {
        Err(e) => e.message(),
        Ok(_) => "",
    };
    assert!(message.contains("No room_id provided"));
}

#[test]
fn uses_default_room_when_omitted() {
    let tool = history_tool();
    let request = tool.plan_request(None, None).ok().unwrap();
    assert_eq!(request.room_id, "!test:example.com");
    assert_eq!(
        request.url,
        "https://matrix.example.com/_matrix/client/v3/rooms/%21test%3Aexample.com/messages?dir=b&limit=20&filter={\"types\":[\"m.room.message\"]}"
    );
}

#[test]
fn explicit_room_and_limit_are_used() {
    let tool = history_tool();
    let request = tool.plan_request(Some("!other:hs".into()), Some(50)).ok().unwrap();
    assert_eq!(request.room_id, "!other:hs");
    assert!(request.url.contains("/rooms/%21other%3Ahs/messages?dir=b&limit=50&filter="));
}

#[test]
fn history_limit_is_clamped() {
    assert_eq!(MatrixHistoryTool::clamp_limit(None), 20);
    assert_eq!(MatrixHistoryTool::clamp_limit(Some(0)), 1);
    assert_eq!(MatrixHistoryTool::clamp_limit(Some(1)), 1);
    assert_eq!(MatrixHistoryTool::clamp_limit(Some(100)), 100);
    assert_eq!(MatrixHistoryTool::clamp_limit(Some(101)), 100);
    assert_eq!(MatrixHistoryTool::clamp_limit(Some(u64::MAX)), 100);
}

#[test]
fn history_empty_chunk() {
    let r = MatrixHistoryTool::history_result("!r:hs", &Vec::new());
    assert!(r.success);
    assert!(r.error.is_none());
    assert_eq!(r.output, "No messages found in room !r:hs.");
}

#[test]
fn history_lines_are_chronological() {
    let events = vec![
        event(Some("@b:hs"), Some(1_700_000_060_000), Some("second"), Some("m.notice")),
        event(Some("@a:hs"), Some(1_700_000_000_123), Some("first"), None),
    ];
    let r = MatrixHistoryTool::history_result("!r:hs", &events);
    assert!(r.success);
    assert_eq!(
        r.output,
        "Room history (!r:hs) — 2 most recent messages:\n\n[2023-11-14 22:13] @a:hs: first\n[2023-11-14 22:14] @b:hs (m.notice): second"
    );
}

#[test]
fn history_defaults_for_missing_fields() {
    let r = MatrixHistoryTool::history_result("!r:hs", &vec![event(None, None, None, None)]);
    assert_eq!(
        r.output,
        "Room history (!r:hs) — 1 most recent messages:\n\n[1970-01-01 00:00] unknown: [no text content]"
    );
}

#[test]
fn history_line_falls_back_to_raw_timestamp() {
    let e = event(Some("@a:hs"), Some(42), Some("x"), Some("m.text"));
    assert_eq!(MatrixHistoryTool::format_event_line(&e, None), "[42] @a:hs: x");
    assert_eq!(
        MatrixHistoryTool::format_event_line(&e, Some("2000-01-01 00:00".into())),
        "[2000-01-01 00:00] @a:hs: x"
    );
}

#[test]
fn api_error_is_reported() {
    let r = api_error_result("404 Not Found", "{\"errcode\":\"M_NOT_FOUND\"}");
    assert!(!r.success);
    assert_eq!(r.output, "");
    assert_eq!(r.error.unwrap(), "Matrix API returned 404 Not Found: {\"errcode\":\"M_NOT_FOUND\"}");
}

// ── Rooms tool ──

#[test]
fn rooms_name_and_urls() {
    let tool = MatrixRoomsTool::new("https://matrix.example.com/".into(), "test_token".into());
    assert_eq!(tool.name(), "matrix_rooms");
    assert_eq!(tool.joined_rooms_url(), "https://matrix.example.com/_matrix/client/v3/joined_rooms");
    assert_eq!(
        tool.state_event_url("%21a%3Ahs", "m.room.name"),
        "https://matrix.example.com/_matrix/client/v3/rooms/%21a%3Ahs/state/m.room.name"
    );
    assert_eq!(tool.authorization(), "Bearer test_token");
}

#[test]
fn joined_rooms_empty_list() {
    match MatrixRoomsTool::joined_rooms_step(&Vec::new()) {
        JoinedRoomsStep::Finished(r) => {
            assert!(r.success);
            assert_eq!(r.output, "No joined rooms found.");
        }
        JoinedRoomsStep::FetchDetails(_) => panic!("nothing to fetch"),
    }
}

#[test]
fn joined_rooms_skip_non_string_entries() {
    let raw = vec![Some("!a:hs".to_string()), None, Some("!b:hs".to_string())];
    match MatrixRoomsTool::joined_rooms_step(&raw) {
        JoinedRoomsStep::FetchDetails(ids) => assert_eq!(ids, vec!["!a:hs", "!b:hs"]),
        JoinedRoomsStep::Finished(_) => panic!("rooms to fetch"),
    }
}

#[test]
fn rooms_listing_without_filter() {
    let rooms = vec![room("!a:hs", Some("General"), Some("#general:hs")), room("!b:hs", None, None)];
    let r = MatrixRoomsTool::rooms_result(&rooms, None);
    assert!(r.success);
    assert_eq!(
        r.output,
        "Joined rooms (2 total):\n\n- General\n  id: !a:hs  alias: #general:hs\n- (unnamed)\n  id: !b:hs"
    );
}

#[test]
fn rooms_filter_is_case_insensitive() {
    let rooms = vec![
        room("!a:hs", Some("General"), None),
        room("!b:hs", Some("Random"), Some("#Dev:hs")),
        room("!GEN:hs", None, None),
    ];
    let f = MatrixRoomsTool::normalize_filter(Some("GeN")).unwrap();
    assert_eq!(f, "gen");
    let r = MatrixRoomsTool::rooms_result(&rooms, Some(&f));
    assert_eq!(r.output, "Joined rooms (1 total):\n\n- General\n  id: !a:hs");
    let f = MatrixRoomsTool::normalize_filter(Some("dev")).unwrap();
    let r = MatrixRoomsTool::rooms_result(&rooms, Some(&f));
    assert_eq!(r.output, "Joined rooms (1 total):\n\n- Random\n  id: !b:hs  alias: #Dev:hs");
}

#[test]
fn rooms_filter_ignores_room_id() {
    let rooms = vec![room("!general:hs", None, None)];
    assert!(!MatrixRoomsTool::room_matches(&rooms[0], "general"));
    let r = MatrixRoomsTool::rooms_result(&rooms, Some("general"));
    assert_eq!(r.output, "No rooms matched filter \"general\".");
}

#[test]
fn tool_parameters() {
    let p = history_tool().parameters();
    assert_eq!(p.len(), 2);
    assert_eq!((p[0].name, p[0].json_type), ("room_id", "string"));
    assert_eq!((p[1].name, p[1].json_type), ("limit", "integer"));
    assert_eq!(p[1].description, "Number of messages to fetch (default: 20, max: 100)");
    let tool = MatrixRoomsTool::new("https://hs".into(), "t".into());
    let p = tool.parameters();
    assert_eq!(p.len(), 1);
    assert_eq!(p[0].name, "filter");
    assert!(p[0].description.contains("name or alias"));
}

#[test]
fn history_filter_constant() {
    assert_eq!(MESSAGE_EVENT_FILTER, r#"{"types":["m.room.message"]}"#);
}

#[test]
fn rooms_filter_without_match() {
    let rooms = vec![room("!a:hs", Some("General"), None)];
    let r = MatrixRoomsTool::rooms_result(&rooms, Some("zzz"));
    assert!(r.success);
    assert_eq!(r.output, "No rooms matched filter \"zzz\".");
    let r = MatrixRoomsTool::rooms_result(&Vec::new(), None);
    assert_eq!(r.output, "No joined rooms found.");
}

#[test]
fn empty_filter_keeps_every_room() {
    let rooms = vec![room("!a:hs", None, None)];
    assert!(MatrixRoomsTool::room_matches(&rooms[0], ""));
    let r = MatrixRoomsTool::rooms_result(&rooms, Some(""));
    assert_eq!(r.output, "Joined rooms (1 total):\n\n- (unnamed)\n  id: !a:hs");
}
