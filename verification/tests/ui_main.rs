use cove::keys::KeyMatches;
use cove::logger::{Level, Logger};
use cove::ui_main::{
    format_binding, handle_ui_event, key_bindings_rows, BindingRow, EventHandleResult, KeyGroup, Mode,
    TermRoute, Ui, UiEventKind,
};

fn keys(f: impl Fn(&mut KeyMatches)) -> KeyMatches {
    let mut k = KeyMatches::default();
    f(&mut k);
    k
}

#[test]
fn bindings_are_listed_with_their_keys() {
    assert_eq!(format_binding(&vec![]), "unbound");
    assert_eq!(format_binding(&vec![String::from("k")]), "k");
    assert_eq!(format_binding(&vec![String::from("up"), String::from("k"), String::from("ctrl+p")]), "up, k, ctrl+p");
}

#[test]
fn key_binding_rows_group_titles_and_bindings() {
    let groups = vec![
        KeyGroup {
            description: String::from("General"),
            bindings: vec![(String::from("Exit"), vec![String::from("ctrl+c")])],
        },
        KeyGroup {
            description: String::from("Cursor"),
            bindings: vec![
                (String::from("Up"), vec![String::from("up"), String::from("k")]),
                (String::from("Nowhere"), vec![]),
            ],
        },
    ];
    let (_, rows) = key_bindings_rows(&groups);
    let shown: Vec<String> = rows
        .iter()
        .map(|r| match r {
            BindingRow::Empty => String::new(),
            BindingRow::Title(t) => format!("# {t}"),
            BindingRow::Binding { description, keys } => format!("{description}: {keys}"),
        })
        .collect();
    assert_eq!(
        shown,
        vec!["# General", "Exit: ctrl+c", "", "# Cursor", "Up: up, k", "Nowhere: unbound"]
    );
}

#[test]
fn other_events_redraw_when_they_change_the_screen() {
    assert_eq!(handle_ui_event(Mode::Main, UiEventKind::Resize), EventHandleResult::Redraw);
    assert_eq!(handle_ui_event(Mode::Main, UiEventKind::LogChanged), EventHandleResult::Continue);
    assert_eq!(handle_ui_event(Mode::Log, UiEventKind::LogChanged), EventHandleResult::Redraw);
    assert_eq!(handle_ui_event(Mode::Main, UiEventKind::Euph { shown: false }), EventHandleResult::Continue);
    assert_eq!(handle_ui_event(Mode::Log, UiEventKind::GraphemeWidthsChanged), EventHandleResult::Redraw);
}

#[test]
fn keys_switch_between_screens() {
    let mut log = Logger::new();
    log.log(Level::Error, "cove", "oops", 0);
    let mut ui = Ui::new(log);
    assert_eq!(ui.mode(), Mode::Main);
    assert_eq!(ui.handle_term_event(&keys(|k| k.cursor_down = true), 10), TermRoute::ToRooms);
    assert_eq!(ui.handle_term_event(&keys(|k| k.log = true), 10), TermRoute::Done(EventHandleResult::Redraw));
    assert_eq!(ui.mode(), Mode::Log);
    assert_eq!(ui.handle_term_event(&keys(|k| k.help = true), 10), TermRoute::Done(EventHandleResult::Redraw));
    assert!(ui.key_bindings_visible());
    assert_eq!(ui.handle_term_event(&keys(|k| k.log = true), 10), TermRoute::Done(EventHandleResult::Continue));
    assert_eq!(ui.handle_term_event(&keys(|k| k.abort = true), 10), TermRoute::Done(EventHandleResult::Redraw));
    assert!(!ui.key_bindings_visible());
    assert_eq!(ui.handle_term_event(&keys(|k| k.abort = true), 10), TermRoute::Done(EventHandleResult::Redraw));
    assert_eq!(ui.mode(), Mode::Main);
    assert_eq!(ui.handle_term_event(&keys(|k| k.exit = true), 10), TermRoute::Done(EventHandleResult::Stop));
}
