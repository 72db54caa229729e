use cove::emoji::Emoji;
use cove::keys::KeyMatches;
use cove::links::{link_display, number_key, Link, LinksAction, LinksState};

#[test]
fn links_in_order() {
    let content = "see &cove and https://example.org or www.rust-lang.org, &a";
    let state = LinksState::new(content, &Emoji::empty());
    assert_eq!(
        state.links(),
        &vec![
            Link::Room("cove".to_string()),
            Link::Url("https://example.org".to_string()),
            Link::Url("www.rust-lang.org".to_string()),
            Link::Room("a".to_string()),
        ]
    );
    assert_eq!(state.len(), 4);
    assert_eq!(LinksState::new("nothing here", &Emoji::empty()).len(), 0);
}

#[test]
fn displaying_links() {
    assert_eq!(link_display(&Link::Room("cove".to_string())), "&cove");
    assert_eq!(link_display(&Link::Url("a.org".to_string())), "a.org");
    assert_eq!(number_key(0), Some('1'));
    assert_eq!(number_key(8), Some('9'));
    assert_eq!(number_key(9), Some('0'));
    assert_eq!(number_key(10), None);
}

#[test]
fn opening_links() {
    let mut state = LinksState::new("&room http://a.org b.org", &Emoji::empty());
    assert_eq!(state.build_list(), vec![true, false, false]);
    let mut keys = KeyMatches::default();
    keys.confirm = true;
    assert!(matches!(state.handle_input_event(&keys, None), LinksAction::SwitchToRoom(n) if n == "room"));
    let keys = KeyMatches::default();
    assert!(matches!(state.handle_input_event(&keys, Some('2')), LinksAction::OpenUrl(u) if u == "http://a.org"));
    assert!(matches!(state.handle_input_event(&keys, Some('3')), LinksAction::OpenUrl(u) if u == "https://b.org"));
    assert!(matches!(state.handle_input_event(&keys, Some('4')), LinksAction::Handled));
    assert!(matches!(state.handle_input_event(&keys, Some('x')), LinksAction::NotHandled));
    assert!(matches!(state.handle_input_event(&keys, None), LinksAction::NotHandled));
    let mut keys = KeyMatches::default();
    keys.cursor_down = true;
    assert!(matches!(state.handle_input_event(&keys, None), LinksAction::Handled));
    let mut keys = KeyMatches::default();
    keys.confirm = true;
    assert!(matches!(state.handle_input_event(&keys, None), LinksAction::OpenUrl(u) if u == "http://a.org"));
    let mut keys = KeyMatches::default();
    keys.abort = true;
    assert!(matches!(state.handle_input_event(&keys, None), LinksAction::Close));
}

#[test]
fn empty_link_list() {
    let mut state = LinksState::new("", &Emoji::empty());
    // Without a cursor, the row that cannot be selected counts as matching it.
    assert_eq!(state.build_list(), vec![true]);
    let mut keys = KeyMatches::default();
    keys.confirm = true;
    assert!(matches!(state.handle_input_event(&keys, None), LinksAction::Handled));
}
