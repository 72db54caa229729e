use cove::euph_ui::{
    failed_action, status_info, EuphRoom, Focus, Joined, NickSession, ReplyType, RoomAction, RoomView,
    SendOutcome, ServerData, SessionType, UiState,
};
use cove::keys::KeyMatches;
use cove::logger::{Level, LogMsg, Logger};
use cove::nick_list::{heading_count, nick_list_rows, NickRow};
use cove::popup::RoomPopup;
use cove::rooms::Tone;

fn session(name: &str, id: &str, sid: &str, t: Option<SessionType>) -> NickSession {
    NickSession {
        name: name.to_string(),
        id: id.to_string(),
        session_id: sid.to_string(),
        is_staff: false,
        is_manager: false,
        session_type: t,
    }
}

fn joined() -> Joined {
    Joined {
        own: session("me", "agent:1", "s1", Some(SessionType::Agent)),
        listing: vec![
            session("zed", "account:2", "s2", Some(SessionType::Account)),
            session("", "agent:3", "s3", Some(SessionType::Agent)),
            session("helper", "bot:4", "s4", Some(SessionType::Bot)),
            session("alice", "agent:5", "s5", Some(SessionType::Agent)),
        ],
        account: None,
    }
}

fn describe(rows: &[NickRow]) -> Vec<String> {
    rows.iter()
        .map(|r| match r {
            NickRow::Blank => "".to_string(),
            NickRow::Heading { name, count } => format!("{name} ({count})"),
            NickRow::Session { own, name, perms, .. } => format!("{}{}{}", if *own { ">" } else { " " }, name, perms),
        })
        .collect()
}

#[test]
fn nick_list_sections() {
    let rows = nick_list_rows(&joined());
    assert_eq!(
        describe(&rows),
        vec!["People (3)", " alice", ">me", " zed~", "", "Bots (1)", " helper", "", "Lurkers (1)", " lurk"]
    );
    assert_eq!(heading_count(3), " (3)");
    let mut staff = joined();
    staff.listing[0].is_staff = true;
    staff.listing[3].is_manager = true;
    let rows = nick_list_rows(&staff);
    assert_eq!(describe(&rows)[1], " alice*");
    assert_eq!(describe(&rows)[3], " zed!");
}

#[test]
fn status_line() {
    let (info, title) = status_info("euphoria.io", "test", &RoomView::Connecting, 0);
    let texts: Vec<&str> = info.iter().map(|(t, _)| t.as_str()).collect();
    assert_eq!(texts, vec!["euphoria.io ", "&test", ", connecting..."]);
    assert_eq!(title, "&test");
    let (info, title) = status_info("euphoria.io", "test", &RoomView::Joined(joined()), 4);
    let texts: Vec<&str> = info.iter().map(|(t, _)| t.as_str()).collect();
    assert_eq!(texts, vec!["euphoria.io ", "&test", ", present as ", "me", " (", "4", ")"]);
    assert_eq!(info[3].1, Tone::Nick);
    assert_eq!(title, "&test (4)");
    let (info, _) = status_info("a", "b", &RoomView::NoRoom, 0);
    assert_eq!(info[2].0, ", archive");
    let (info, _) = status_info("a", "b", &RoomView::Joining { bounce: true }, 0);
    assert_eq!(info[2].0, ", auth required");
}

#[test]
fn server_errors() {
    let mut room = EuphRoom::new(Logger::new());
    assert!(!room.handle_euph_data(&ServerData::PingEvent));
    assert!(room.handle_euph_data(&ServerData::AuthReply { success: true, reason: None }));
    assert!(room.popups().is_empty());
    assert!(room.handle_euph_data(&ServerData::AuthReply { success: false, reason: None }));
    assert!(room.handle_euph_error(ReplyType::Nick, "too long"));
    assert!(!room.handle_euph_error(ReplyType::Other, "whatever"));
    let popups: Vec<(String, String)> = room
        .popups()
        .iter()
        .map(|p| match p {
            RoomPopup::Error { description, reason } => (description.clone(), reason.clone()),
        })
        .collect();
    assert_eq!(
        popups,
        vec![
            ("Failed to set nick.".to_string(), "too long".to_string()),
            ("Failed to authenticate.".to_string(), "no idea, the server wouldn't say".to_string()),
        ]
    );
    assert_eq!(failed_action(ReplyType::Unban), Some("unban"));
    // Aborting closes the oldest popup; nothing else gets keys meanwhile.
    let mut keys = KeyMatches::default();
    keys.abort = true;
    let view = RoomView::NoRoom;
    assert!(matches!(
        room.handle_input_event::<LogMsg>(&keys, 24, "", "", "", None, &view, false).unwrap(),
        RoomAction::Handled
    ));
    assert_eq!(room.popups().len(), 1);
    room.link_error("x.org", "no browser");
    assert!(matches!(&room.popups()[0], RoomPopup::Error { description, .. } if description == "Failed to open link: x.org"));
}

#[test]
fn room_keys_and_popups() {
    let mut log = Logger::new();
    assert!(log.log(Level::Info, "cove", "hi", 0));
    let mut room = EuphRoom::new(log);
    let view = RoomView::Joined(joined());
    let mut keys = KeyMatches::default();
    keys.room_nick = true;
    assert!(matches!(room.handle_input_event::<LogMsg>(&keys, 24, "", "", "", None, &view, true).unwrap(), RoomAction::Handled));
    assert!(matches!(room.state(), UiState::Nick));
    assert!(matches!(room.handle_input_event::<LogMsg>(&KeyMatches::default(), 24, "", "", "", None, &view, true).unwrap(), RoomAction::PopupEditor));
    let mut keys = KeyMatches::default();
    keys.confirm = true;
    assert!(matches!(room.handle_input_event::<LogMsg>(&keys, 24, "", "", "", None, &view, true).unwrap(), RoomAction::ChangeNick));
    assert!(matches!(room.state(), UiState::Normal));

    let mut keys = KeyMatches::default();
    keys.room_more_messages = true;
    assert!(matches!(room.handle_input_event::<LogMsg>(&keys, 24, "", "", "", None, &view, true).unwrap(), RoomAction::RequestMoreLogs));

    let mut keys = KeyMatches::default();
    keys.focus = true;
    room.handle_input_event::<LogMsg>(&keys, 24, "", "", "", None, &view, true).unwrap();
    assert_eq!(room.focus(), Focus::NickList);
    room.stabilize_focus(&RoomView::Connecting);
    assert_eq!(room.focus(), Focus::Chat);

    let mut keys = KeyMatches::default();
    keys.room_account = true;
    room.handle_input_event::<LogMsg>(&keys, 24, "", "", "", None, &view, true).unwrap();
    assert!(matches!(room.state(), UiState::Account(_)));
    room.stabilize_state(&RoomView::Disconnected);
    assert!(matches!(room.state(), UiState::Normal));

    // Composing and sending.
    let mut keys = KeyMatches::default();
    keys.new_thread = true;
    room.handle_input_event::<LogMsg>(&keys, 24, "", "", "", None, &view, true).unwrap();
    let mut keys = KeyMatches::default();
    keys.confirm = true;
    match room.handle_input_event::<LogMsg>(&keys, 24, "hello", "", "", None, &view, true).unwrap() {
        RoomAction::Send { parent, content } => {
            assert_eq!(parent, None);
            assert_eq!(content, "hello");
        }
        _ => panic!("expected to send"),
    }
    room.message_sent();
    assert!(!room.stabilize_pseudo_msg(SendOutcome::Waiting));
    assert!(room.stabilize_pseudo_msg(SendOutcome::Sent(42)));
    assert_eq!(room.chat().cursor(), Some(&42));
    assert!(matches!(room.handle_input_event::<LogMsg>(&KeyMatches::default(), 24, "", "", "", None, &view, true).unwrap(), RoomAction::NotHandled));
}

#[test]
fn inspecting_and_links() {
    let mut log = Logger::new();
    assert!(log.log(Level::Info, "cove", "hi", 0));
    let mut room = EuphRoom::new(log);
    let view = RoomView::Joined(joined());
    let mut keys = KeyMatches::default();
    keys.cursor_up = true;
    room.handle_input_event::<LogMsg>(&keys, 24, "", "", "", None, &view, true).unwrap();
    let mut keys = KeyMatches::default();
    keys.inspect = true;
    assert!(matches!(room.handle_input_event::<LogMsg>(&keys, 24, "", "", "", None, &view, true).unwrap(), RoomAction::LoadMessageToInspect(0)));
    room.inspect_message(0);
    let mut keys = KeyMatches::default();
    keys.abort = true;
    assert!(matches!(room.handle_input_event::<LogMsg>(&keys, 24, "", "", "", None, &view, true).unwrap(), RoomAction::Handled));
    assert!(matches!(room.state(), UiState::Normal));
    let mut keys = KeyMatches::default();
    keys.links = true;
    assert!(matches!(room.handle_input_event::<LogMsg>(&keys, 24, "", "", "", None, &view, true).unwrap(), RoomAction::LoadMessageForLinks(0)));
    room.show_links("see &other", &cove::emoji::Emoji::empty());
    assert_eq!(room.build_links_list(), Some(vec![true]));
    let mut keys = KeyMatches::default();
    keys.confirm = true;
    assert!(matches!(room.handle_input_event::<LogMsg>(&keys, 24, "", "", "", None, &view, true).unwrap(), RoomAction::SwitchToRoom(n) if n == "other"));
}

#[test]
fn nick_list_focus_and_inspecting_sessions() {
    let mut room = EuphRoom::new(Logger::new());
    let view = RoomView::Joined(joined());
    let rows = nick_list_rows(&joined());
    let selected = room.build_nick_list(&rows);
    // The cursor goes to the first session, "alice".
    assert_eq!(selected, vec![false, true, false, false, false, false, false, false, false, false]);
    let mut keys = KeyMatches::default();
    keys.focus = true;
    assert!(matches!(room.handle_input_event::<LogMsg>(&keys, 24, "", "", "", None, &view, true).unwrap(), RoomAction::Handled));
    assert_eq!(room.focus(), Focus::NickList);
    let mut down = KeyMatches::default();
    down.cursor_down = true;
    assert!(matches!(room.handle_input_event::<LogMsg>(&down, 24, "", "", "", None, &view, true).unwrap(), RoomAction::Handled));
    let mut inspect = KeyMatches::default();
    inspect.inspect = true;
    assert!(matches!(room.handle_input_event::<LogMsg>(&inspect, 24, "", "", "", None, &view, true).unwrap(), RoomAction::Handled));
    assert!(matches!(room.state(), UiState::InspectSession(id) if id == "s1"));
    let mut abort = KeyMatches::default();
    abort.abort = true;
    room.handle_input_event::<LogMsg>(&abort, 24, "", "", "", None, &view, true).unwrap();
    assert!(matches!(room.state(), UiState::Normal));
    room.handle_input_event::<LogMsg>(&abort, 24, "", "", "", None, &view, true).unwrap();
    assert_eq!(room.focus(), Focus::Chat);
}
