use cove::layout::{centered, centered_v, Rect};
use cove::room_ui::{Body, BodyView, ConnState, Main, MainView, Reaction, RoomInfo, Status};
use cove::textline::{EventHandler, KeyCode};

fn screen() -> Rect {
    Rect { x: 0, y: 0, width: 80, height: 24 }
}

#[test]
fn centered_rounds_and_clamps() {
    let area = Rect { x: 2, y: 3, width: 11, height: 4 };
    assert_eq!(centered(4, 1, area), Rect { x: 5, y: 4, width: 4, height: 1 });
    assert_eq!(centered(40, 10, area), area);
    assert_eq!(centered_v(2, area), Rect { x: 2, y: 4, width: 11, height: 2 });
}

#[test]
fn main_area_follows_status() {
    let mut room = RoomInfo::new(String::from("test"));
    assert_eq!(room.name(), "test");
    assert!(matches!(room.main_view(screen()), MainView::Nothing));

    room.align_main(&Status::Nominal, true, false);
    match room.main_view(screen()) {
        MainView::Title { area, text } => {
            assert_eq!(text, "Connecing...");
            assert_eq!(area, Rect { x: 34, y: 11, width: 12, height: 1 });
        }
        _ => panic!("expected a title"),
    }

    room.align_main(&Status::Nominal, false, false);
    assert!(matches!(room.main_view(screen()), MainView::Title { text: "Identifying...", .. }));

    room.align_main(&Status::Nominal, true, true);
    assert!(matches!(room.main_view(screen()), MainView::Messages { area } if area == screen()));
}

#[test]
fn nick_prompt_keeps_text_box_and_shows_error() {
    let mut room = RoomInfo::new(String::from("test"));
    room.align_main(&Status::NickRequired, true, false);
    match room.main_view(screen()) {
        MainView::ChooseNick { prompt_area, error, nick_area } => {
            assert!(error.is_none());
            assert_eq!(prompt_area, Rect { x: 15, y: 11, width: 50, height: 1 });
            assert_eq!(nick_area, Rect { x: 15, y: 12, width: 50, height: 1 });
        }
        _ => panic!("expected the nick prompt"),
    }
    room.align_main(&Status::InvalidNick(String::from("bad nick")), true, false);
    match room.main_view(screen()) {
        MainView::ChooseNick { prompt_area, error, nick_area } => {
            assert_eq!(error.as_deref(), Some("bad nick"));
            assert_eq!(prompt_area, Rect { x: 15, y: 9, width: 50, height: 4 });
            assert_eq!(nick_area, Rect { x: 15, y: 13, width: 50, height: 1 });
        }
        _ => panic!("expected the nick prompt"),
    }
}

#[test]
fn fatal_errors_are_centered_by_their_width() {
    let mut room = RoomInfo::new(String::from("test"));
    room.align_main(&Status::CouldNotConnect, false, false);
    match room.main_view(screen()) {
        MainView::Fatal { area, error } => {
            assert_eq!(error, "Could not connect to room");
            assert_eq!(area, Rect { x: 27, y: 11, width: 25, height: 2 });
        }
        _ => panic!("expected a fatal error"),
    }
    room.align_main(&Status::InvalidIdentity(String::from("expired")), false, false);
    match room.main_view(screen()) {
        MainView::Fatal { error, .. } => assert_eq!(error, "Invalid identity:\nexpired"),
        _ => panic!("expected a fatal error"),
    }
    let mut room = RoomInfo::new(String::from("test"));
    room.align_main(&Status::InvalidRoom(String::from("gone")), false, false);
    assert!(matches!(room.main_view(screen()), MainView::Fatal { error, .. } if error == "Invalid room:\ngone"));
}

#[test]
fn fresh_main_values() {
    assert!(matches!(Main::choose_nick(), Main::ChooseNick { prev_error: None, .. }));
    assert!(matches!(Main::fatal("x"), Main::FatalError(e) if e == "x"));
}

#[test]
fn body_asks_for_a_nick_and_identifies() {
    let mut body = Body::default();
    assert!(matches!(body, Body::Empty));
    assert!(body.handle_key(KeyCode::Char('x')).is_none());

    body.update(&ConnState::IdRequired(Some(String::from("taken"))));
    assert!(matches!(body.handle_key(KeyCode::Char('h')), Some(Reaction::Handled)));
    assert!(matches!(body.handle_key(KeyCode::Char('i')), Some(Reaction::Handled)));
    assert!(matches!(body.handle_key(KeyCode::Left), Some(Reaction::Handled)));
    assert!(matches!(body.handle_key(KeyCode::Char('é')), Some(Reaction::Handled)));
    assert!(body.handle_key(KeyCode::Other).is_none());
    match body.view(screen()) {
        BodyView::ChooseNick { area, error } => {
            assert_eq!(area, Rect { x: 0, y: 10, width: 80, height: 3 });
            assert_eq!(error.as_deref(), Some("taken"));
        }
        _ => panic!("expected the nick prompt"),
    }
    // A new error keeps what was typed.
    body.update(&ConnState::IdRequired(None));
    assert!(matches!(body.view(screen()), BodyView::ChooseNick { error: None, .. }));
    match body.handle_key(KeyCode::Enter) {
        Some(Reaction::Identify(nick)) => assert_eq!(nick, "héi"),
        _ => panic!("expected to identify"),
    }

    body.update(&ConnState::Present);
    match body.view(screen()) {
        BodyView::Title { area, text } => {
            assert_eq!(text, "Present");
            assert_eq!(area, Rect { x: 36, y: 11, width: 7, height: 1 });
        }
        _ => panic!("expected a title"),
    }
    body.update(&ConnState::Stopped);
    assert!(matches!(body.view(screen()), BodyView::Title { text: "Stopped", .. }));
    body.update(&ConnState::ChoosingRoom);
    assert!(matches!(body.view(screen()), BodyView::Title { text: "Entering room...", .. }));
}
