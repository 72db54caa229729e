use cove::account::{AccountAction, AccountUiState, Focus};
use cove::euph_room::{is_rl2dev, log_request, Effects, Event, Packet, Room, State, VaultWrite};
use cove::keys::KeyMatches;

#[test]
fn logging_in() {
    let mut account = AccountUiState::new();
    let mut keys = KeyMatches::default();
    keys.focus = true;
    assert_eq!(account.handle_input_event(&keys, "me@example.org", "pw"), AccountAction::Handled);
    assert_eq!(account.handle_input_event(&KeyMatches::default(), "me@example.org", "pw"), AccountAction::ToEditor(Focus::Password));
    assert_eq!(account.handle_input_event(&keys, "me@example.org", "pw"), AccountAction::Handled);
    assert_eq!(account.handle_input_event(&KeyMatches::default(), "me@example.org", "pw"), AccountAction::ToEditor(Focus::Email));
    let mut keys = KeyMatches::default();
    keys.confirm = true;
    assert_eq!(account.handle_input_event(&keys, "me@example.org", "pw"), AccountAction::Handled);
    assert_eq!(
        account.handle_input_event(&keys, "me@example.org", "pw"),
        AccountAction::Login { email: String::from("me@example.org"), password: String::from("pw") }
    );
    let mut keys = KeyMatches::default();
    keys.abort = true;
    assert_eq!(account.handle_input_event(&keys, "me@example.org", "pw"), AccountAction::Close);
}

#[test]
fn following_the_room() {
    let mut account = AccountUiState::new();
    assert!(!account.stabilize(None));
    assert!(account.stabilize(Some(Some("me@example.org".to_string()))));
    assert!(matches!(&account, AccountUiState::LoggedIn(l) if l.email == "me@example.org"));
    let mut keys = KeyMatches::default();
    keys.confirm = true;
    assert_eq!(account.handle_input_event(&keys, "me@example.org", "pw"), AccountAction::Logout);
    assert_eq!(account.handle_input_event(&KeyMatches::default(), "me@example.org", "pw"), AccountAction::NotHandled);
    assert!(account.stabilize(Some(None)));
    assert!(matches!(&account, AccountUiState::LoggedOut(_)));
}

#[test]
fn room_history() {
    assert!(is_rl2dev("euphoria.io", "rl2dev"));
    assert!(!is_rl2dev("euphoria.leet.nu", "rl2dev"));
    assert_eq!(log_request(Some(None), "euphoria.io", "test"), None);
    assert_eq!(log_request(Some(Some(7)), "euphoria.io", "test"), Some((1000, Some(7))));
    assert_eq!(log_request(None, "euphoria.io", "rl2dev"), Some((50, None)));
}

#[test]
fn room_events() {
    let mut room = Room::new("euphoria.io", "test", false);
    assert!(!room.ephemeral());
    assert!(Room::new("euphoria.io", "rl2dev", false).ephemeral());
    let e = room.handle_event(Event::Connected);
    assert!(e.start_log_requests && e.store_cookies);
    assert_eq!(room.state(), State::Connected);
    // Before a snapshot, sent messages are not stored.
    assert_eq!(room.handle_event(Event::Packet(Packet::Send { id: 3 })).write, VaultWrite::Nothing);
    assert_eq!(
        room.handle_event(Event::Packet(Packet::Snapshot { last: Some(5) })).write,
        VaultWrite::JoinAndAddMsgs
    );
    assert_eq!(
        room.handle_event(Event::Packet(Packet::Send { id: 6 })).write,
        VaultWrite::AddMsg { prev: Some(5) }
    );
    assert_eq!(
        room.handle_event(Event::Packet(Packet::Send { id: 9 })).write,
        VaultWrite::AddMsg { prev: Some(6) }
    );
    assert_eq!(
        room.handle_event(Event::Packet(Packet::LogReply { before: Some(2) })).write,
        VaultWrite::AddMsgs { before: Some(2) }
    );
    let e = room.handle_event(Event::Disconnected);
    assert_eq!(
        e,
        Effects { start_log_requests: false, stop_log_requests: true, store_cookies: false, write: VaultWrite::Nothing }
    );
    assert_eq!(room.handle_event(Event::Packet(Packet::Send { id: 10 })).write, VaultWrite::Nothing);
    room.handle_event(Event::Stopped);
    assert_eq!(room.state(), State::Stopped);
    let mut quiet = Room::new("a", "b", true);
    assert!(!quiet.handle_event(Event::Connected).start_log_requests);
}
