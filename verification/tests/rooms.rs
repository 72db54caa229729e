use cove::keys::KeyMatches;
use cove::list::ListBuilder;
use cove::rooms::{
    format_pbln, format_room_info, format_room_state, format_unseen_msgs, rooms_heading, sort_rooms,
    ConnectResult, ConnectState, DeleteResult, DeleteState, Focus, Order, RoomIdentifier, RoomRow,
    RoomState, Rooms, RoomsAction, RoomsSortOrder, Session, State, Tone, render_rows, stabilize_rooms,
};

fn id(domain: &str, name: &str) -> RoomIdentifier {
    RoomIdentifier::new(domain.to_string(), name.to_string())
}

fn session(is_bot: bool, nick_empty: bool) -> Session {
    Session { is_bot, nick_empty }
}

#[test]
fn pbln_counts() {
    let own = session(false, false);
    let listing = vec![
        session(false, false),
        session(false, false),
        session(true, false),
        session(false, true),
        session(true, true),
    ];
    assert_eq!(format_pbln(&own, &listing), "3p 1b 1l 1n");
    assert_eq!(format_pbln(&own, &vec![]), "1p");
    assert_eq!(format_pbln(&session(false, true), &vec![session(true, false)]), "1b 1l");
    let many: Vec<Session> = (0..11).map(|_| session(true, true)).collect();
    assert_eq!(format_pbln(&session(true, true), &many), "12n");
}

#[test]
fn room_states() {
    assert_eq!(format_room_state(None), None);
    assert_eq!(format_room_state(Some(&RoomState::Stopped)), None);
    assert_eq!(format_room_state(Some(&RoomState::Disconnected)).unwrap(), "waiting");
    assert_eq!(format_room_state(Some(&RoomState::Connecting)).unwrap(), "connecting");
    assert_eq!(format_room_state(Some(&RoomState::Joining { bounce: true })).unwrap(), "auth required");
    assert_eq!(format_room_state(Some(&RoomState::Joining { bounce: false })).unwrap(), "joining");
    let joined = RoomState::Joined { own: session(false, false), listing: vec![session(true, false)] };
    assert_eq!(format_room_state(Some(&joined)).unwrap(), "1p 1b");
    assert_eq!(format_unseen_msgs(0), None);
    assert_eq!(format_unseen_msgs(42).unwrap(), "42");
}

fn texts(info: &[(String, Tone)]) -> Vec<String> {
    info.iter().map(|(t, _)| t.clone()).collect()
}

#[test]
fn room_info() {
    assert!(format_room_info(None, 0).is_empty());
    assert_eq!(texts(&format_room_info(None, 5)), vec![" (", "5", ")"]);
    assert_eq!(format_room_info(None, 5)[1].1, Tone::Unseen);
    assert_eq!(texts(&format_room_info(Some(&RoomState::Connecting), 0)), vec![" (", "connecting", ")"]);
    assert_eq!(
        texts(&format_room_info(Some(&RoomState::Joining { bounce: false }), 12)),
        vec![" (", "joining", ", ", "12", ")"]
    );
}

#[test]
fn heading() {
    let (heading, title) = rooms_heading(2, 5, 17);
    assert_eq!(texts(&heading), vec!["Rooms", " (2/5, ", "17", ")"]);
    assert_eq!(title, "Rooms (17)");
    let (heading, title) = rooms_heading(0, 3, 0);
    assert_eq!(texts(&heading), vec!["Rooms", " (0/3)"]);
    assert_eq!(heading[0].1, Tone::Bold);
    assert_eq!(title, "Rooms");
}

fn row(domain: &str, name: &str, connected: bool, unseen: usize) -> RoomRow {
    RoomRow {
        id: id(domain, name),
        state: if connected { Some(RoomState::Connecting) } else { None },
        unseen,
    }
}

fn names(rows: &[RoomRow]) -> Vec<String> {
    rows.iter().map(|r| format!("{}/{}", r.id.domain, r.id.name)).collect()
}

#[test]
fn sorting_rooms() {
    let make = || {
        vec![
            row("b.org", "x", false, 0),
            row("a.org", "zz", true, 0),
            row("a.org", "z", false, 3),
            row("a.org", "a", true, 1),
            row("c.org", "q", true, 2),
        ]
    };
    let mut rooms = make();
    sort_rooms(&mut rooms, Order::Alphabet);
    assert_eq!(names(&rooms), vec!["a.org/a", "a.org/z", "a.org/zz", "b.org/x", "c.org/q"]);
    let mut rooms = make();
    sort_rooms(&mut rooms, Order::Importance);
    assert_eq!(names(&rooms), vec!["a.org/a", "c.org/q", "a.org/zz", "a.org/z", "b.org/x"]);
    // The same order as the derived one of room identifiers.
    let mut ids: Vec<RoomIdentifier> = make().into_iter().map(|r| r.id).collect();
    ids.sort();
    let mut rooms = make();
    sort_rooms(&mut rooms, Order::Alphabet);
    let sorted: Vec<RoomIdentifier> = rooms.into_iter().map(|r| r.id).collect();
    assert_eq!(sorted, ids);
}

#[test]
fn sort_orders() {
    assert_eq!(Order::from_rooms_sort_order(RoomsSortOrder::Importance), Order::Importance);
    assert_eq!(Order::Alphabet.toggled(), Order::Importance);
    assert_eq!(Order::Importance.toggled(), Order::Alphabet);
    assert_eq!(Focus::Name.advance(), Focus::Domain);
    assert_eq!(Focus::Domain.advance(), Focus::Name);
}

#[test]
fn connect_popup() {
    let mut popup = ConnectState::new();
    assert_eq!(ConnectState::initial_domain(), "euphoria.leet.nu");
    assert_eq!(popup.focus(), Focus::Name);
    let mut keys = KeyMatches::default();
    keys.focus = true;
    assert!(matches!(popup.handle_input_event(&keys, "", ""), ConnectResult::Handled));
    assert_eq!(popup.focus(), Focus::Domain);
    let mut keys = KeyMatches::default();
    keys.confirm = true;
    assert!(matches!(popup.handle_input_event(&keys, "", "euphoria.io"), ConnectResult::Unhandled));
    match popup.handle_input_event(&keys, "test", "euphoria.io") {
        ConnectResult::Connect(room) => assert_eq!(room, id("euphoria.io", "test")),
        _ => panic!("expected to connect"),
    }
    let mut keys = KeyMatches::default();
    keys.abort = true;
    assert!(matches!(popup.handle_input_event(&keys, "test", "x"), ConnectResult::Close));
}

#[test]
fn delete_popup() {
    let popup = DeleteState::new(id("euphoria.io", "test"));
    let mut keys = KeyMatches::default();
    keys.confirm = true;
    assert!(matches!(popup.handle_input_event(&keys, "tes"), DeleteResult::Unhandled));
    match popup.handle_input_event(&keys, "test") {
        DeleteResult::Delete(room) => assert_eq!(room, id("euphoria.io", "test")),
        _ => panic!("expected to delete"),
    }
    let mut keys = KeyMatches::default();
    keys.abort = true;
    assert!(matches!(popup.handle_input_event(&keys, "test"), DeleteResult::Close));
}

fn rooms_with_list() -> Rooms {
    let mut rooms = Rooms::new(RoomsSortOrder::Alphabet);
    let mut builder = ListBuilder::new();
    builder.add_sel(id("a.org", "one"));
    builder.add_sel(id("a.org", "two"));
    let selected = rooms.build_list(builder);
    assert_eq!(selected, vec![true, false]);
    rooms
}

#[test]
fn room_list_keys() {
    let mut rooms = rooms_with_list();
    let mut keys = KeyMatches::default();
    keys.cursor_down = true;
    assert!(matches!(rooms.handle_input_event(&keys, None, "", ""), RoomsAction::Handled));
    let mut keys = KeyMatches::default();
    keys.rooms_connect = true;
    match rooms.handle_input_event(&keys, None, "", "") {
        RoomsAction::Connect(room) => assert_eq!(room, id("a.org", "two")),
        _ => panic!("expected to connect"),
    }
    let mut keys = KeyMatches::default();
    keys.rooms_change_sort_order = true;
    rooms.handle_input_event(&keys, None, "", "");
    assert_eq!(rooms.order(), Order::Importance);
    let mut keys = KeyMatches::default();
    keys.rooms_connect_all = true;
    assert!(matches!(rooms.handle_input_event(&keys, None, "", ""), RoomsAction::ConnectAll));
    assert!(matches!(rooms.handle_input_event(&KeyMatches::default(), None, "", ""), RoomsAction::NotHandled));

    let mut keys = KeyMatches::default();
    keys.confirm = true;
    rooms.handle_input_event(&keys, None, "", "");
    assert!(matches!(rooms.state(), State::ShowRoom(r) if *r == id("a.org", "two")));
    let mut keys = KeyMatches::default();
    keys.abort = true;
    assert!(matches!(rooms.handle_input_event(&keys, Some(true), "", ""), RoomsAction::Handled));
    assert!(matches!(rooms.state(), State::ShowRoom(_)));
    assert!(matches!(rooms.handle_input_event(&keys, Some(false), "", ""), RoomsAction::Handled));
    assert!(matches!(rooms.state(), State::ShowList));
}

#[test]
fn new_and_delete_rooms() {
    let mut rooms = rooms_with_list();
    let mut keys = KeyMatches::default();
    keys.rooms_new = true;
    rooms.handle_input_event(&keys, None, "", "");
    assert!(matches!(rooms.state(), State::Connect(_)));
    assert!(matches!(rooms.handle_input_event(&KeyMatches::default(), None, "x", ""), RoomsAction::ToEditor));
    let mut keys = KeyMatches::default();
    keys.confirm = true;
    match rooms.handle_input_event(&keys, None, "new", "a.org") {
        RoomsAction::Connect(room) => assert_eq!(room, id("a.org", "new")),
        _ => panic!("expected to connect"),
    }
    assert!(matches!(rooms.state(), State::ShowRoom(r) if *r == id("a.org", "new")));

    let mut rooms = rooms_with_list();
    let mut keys = KeyMatches::default();
    keys.rooms_delete = true;
    rooms.handle_input_event(&keys, None, "", "");
    assert!(matches!(rooms.state(), State::Delete(d) if *d.id() == id("a.org", "one")));
    let mut keys = KeyMatches::default();
    keys.confirm = true;
    match rooms.handle_input_event(&keys, None, "one", "") {
        RoomsAction::Delete(room) => assert_eq!(room, id("a.org", "one")),
        _ => panic!("expected to delete"),
    }
    assert!(matches!(rooms.state(), State::ShowList));
}

fn rid(name: &str) -> RoomIdentifier {
    RoomIdentifier::new(String::from("euphoria.leet.nu"), String::from(name))
}

#[test]
fn stabilizing_keeps_running_and_required_rooms() {
    let rooms = vec![(rid("a"), true), (rid("b"), false), (rid("c"), true)];
    let db = vec![rid("a"), rid("d")];
    let config = vec![rid("d"), rid("e"), RoomIdentifier::new(String::from("other.example"), String::from("a"))];
    let shown = rid("f");
    let (keep, added) = stabilize_rooms(&rooms, &db, &config, Some(&shown));
    assert_eq!(keep, vec![true, true, false]);
    let names: Vec<(String, String)> = added.iter().map(|r| (r.domain.clone(), r.name.clone())).collect();
    assert_eq!(
        names,
        vec![
            (String::from("euphoria.leet.nu"), String::from("d")),
            (String::from("euphoria.leet.nu"), String::from("e")),
            (String::from("other.example"), String::from("a")),
            (String::from("euphoria.leet.nu"), String::from("f")),
        ]
    );
    let (keep, added) = stabilize_rooms(&rooms, &vec![], &vec![], None);
    assert_eq!(keep, vec![false, true, false]);
    assert!(added.is_empty());
}

#[test]
fn rendered_rows_are_sorted_and_selectable() {
    let mut rows = vec![
        RoomRow { id: rid("b"), state: None, unseen: 3 },
        RoomRow { id: rid("a"), state: Some(RoomState::Connecting), unseen: 0 },
    ];
    let (builder, pieces) = render_rows(&mut rows, Order::Alphabet);
    let texts: Vec<Vec<String>> = pieces.iter().map(|p| p.iter().map(|(t, _)| t.clone()).collect()).collect();
    assert_eq!(
        texts,
        vec![
            vec!["euphoria.leet.nu ", "&a", " (", "connecting", ")"],
            vec!["euphoria.leet.nu ", "&b", " (", "3", ")"],
        ]
    );
    assert_eq!(pieces[1][0].1, Tone::Domain);
    assert_eq!(pieces[1][1].1, Tone::Room);
    assert_eq!(pieces[1][3].1, Tone::Unseen);
    let mut rooms = Rooms::new(RoomsSortOrder::Alphabet);
    assert_eq!(rooms.build_list(builder), vec![true, false]);
}
