//! The client's main screen: the rooms or the log, with the list of key
//! bindings above them on demand.

use std::convert::Infallible;

use vstd::prelude::*;
use vstd::string::StringExecFns;

use crate::chat::{chat_input, ChatState};
use crate::keys::KeyMatches;
use crate::list::{handle_list_input_event, is_list_key, list_key_effect, ListBuilder, ListState};
use crate::logger::{LogMsg, Logger};
use crate::tree_view::TreeReaction;

verus! {

/// What the main screen shows.
#[derive(Debug, Clone, Copy, PartialEq, Eq, Structural)]
pub enum Mode {
    Main,
    Log,
}

/// What the event loop does after an event.
#[derive(Debug, Clone, Copy, PartialEq, Eq, Structural)]
pub enum EventHandleResult {
    Redraw,
    Continue,
    Stop,
}

/// Where a key goes that the main screen does not handle itself.
#[derive(Debug, Clone, Copy, PartialEq, Eq, Structural)]
pub enum TermRoute {
    Done(EventHandleResult),
    /// The rooms screen is to react to the key; redraw if it does.
    ToRooms,
    /// Scroll the log by this many lines and redraw.
    ScrollLog(i32),
    /// Center the log's cursor and redraw.
    CenterLog,
}

/// Events other than keys.
#[derive(Debug, Clone, Copy, PartialEq, Eq, Structural)]
pub enum UiEventKind {
    GraphemeWidthsChanged,
    LogChanged,
    Resize,
    /// An event of a room connection, and whether the rooms screen showed a
    /// change because of it.
    Euph { shown: bool },
}

/// What a key does to the list of key bindings: the cursor keys scroll it by
/// a line, the other list keys work as in any list.
pub open spec fn key_bindings_effect(keys: KeyMatches, old: ListState<Infallible>, new: ListState<Infallible>) -> bool {
    if keys.cursor_up {
        old.scrolled_to(new, crate::list::sat_sub(old.spec_offset(), 1))
    } else if keys.cursor_down {
        old.scrolled_to(new, crate::list::sat_add(old.spec_offset(), 1))
    } else {
        list_key_effect(keys, old, new)
    }
}

/// Whether a key does something to the list of key bindings.
pub open spec fn key_bindings_key(keys: KeyMatches) -> bool {
    keys.cursor_up || keys.cursor_down || is_list_key(keys)
}

/// Where a key goes after the log reacted to it: nowhere where it did not
/// react, to scrolling or centering the log where it asks for that, and to
/// a redraw otherwise.
pub open spec fn log_route(reaction: TreeReaction) -> TermRoute {
    match reaction {
        TreeReaction::NotHandled => TermRoute::Done(EventHandleResult::Continue),
        TreeReaction::ScrollBy(delta) => TermRoute::ScrollLog(delta),
        TreeReaction::CenterCursor => TermRoute::CenterLog,
        _ => TermRoute::Done(EventHandleResult::Redraw),
    }
}

/// Reacts to a key in the list of key bindings: the cursor keys scroll it
/// (like a mouse wheel), the other list keys work as in any list.
pub fn key_bindings_handle_input_event(list: &mut ListState<Infallible>, keys: &KeyMatches) -> (r: bool)
    ensures
        keys.cursor_up ==> r && old(list).scrolled_to(*final(list), crate::list::sat_sub(old(list).spec_offset(), 1)),
        !keys.cursor_up && keys.cursor_down ==> r && old(list).scrolled_to(
            *final(list),
            crate::list::sat_add(old(list).spec_offset(), 1),
        ),
        !keys.cursor_up && !keys.cursor_down ==> r == is_list_key(*keys) && list_key_effect(
            *keys,
            *old(list),
            *final(list),
        ),
{
    if keys.cursor_up {
        list.scroll_up(1);
        return true;
    }
    if keys.cursor_down {
        list.scroll_down(1);
        return true;
    }
    handle_list_input_event(list, keys)
}

/// The names of the keys bound to an action, comma-separated, or `unbound`.
pub open spec fn binding_text(keys: Seq<Seq<char>>) -> Seq<char>
    decreases keys.len(),
{
    if keys.len() == 0 {
        "unbound"@
    } else if keys.len() == 1 {
        keys[0]
    } else {
        binding_text(keys.drop_last()) + ", "@ + keys.last()
    }
}

/// Formats the keys bound to an action.
pub fn format_binding(keys: &Vec<String>) -> (r: String)
    ensures
        keys@.len() > 0 ==> r@ == binding_text(keys@.map_values(|k: String| k@)),
        keys@.len() == 0 ==> r@ == "unbound"@,
{
    let ghost names = keys@.map_values(|k: String| k@);
    if keys.len() == 0 {
        return String::from_str("unbound");
    }
    let mut out = keys[0].clone();
    let mut i: usize = 1;
    assert(names.take(1).drop_last() =~= Seq::<Seq<char>>::empty());
    while i < keys.len()
        invariant
            1 <= i <= keys@.len(),
            names == keys@.map_values(|k: String| k@),
            out@ == binding_text(names.take(i as int)),
        decreases keys@.len() - i,
    {
        out.append(", ");
        out.append(keys[i].as_str());
        assert(names.take(i + 1).drop_last() =~= names.take(i as int));
        i += 1;
    }
    assert(names.take(keys@.len() as int) =~= names);
    out
}

/// A row of the list of key bindings.
#[derive(Debug)]
pub enum BindingRow {
    /// Between groups.
    Empty,
    /// The description of a group, in bold magenta.
    Title(String),
    /// An action and the keys bound to it.
    Binding { description: String, keys: String },
}

/// A group of key bindings: its description and, for each action, its
/// description and the names of its keys.
pub struct KeyGroup {
    pub description: String,
    pub bindings: Vec<(String, Vec<String>)>,
}

/// The rows of the list of key bindings, as texts: each group's title and
/// its bindings, with an empty row between groups.
pub open spec fn binding_rows(groups: Seq<KeyGroup>) -> Seq<Option<(Seq<char>, Option<Seq<char>>)>>
    decreases groups.len(),
{
    if groups.len() == 0 {
        seq![]
    } else {
        let g = groups.last();
        let before = binding_rows(groups.drop_last());
        let sep = if groups.len() > 1 {
            seq![None]
        } else {
            seq![]
        };
        before + sep + seq![Some((g.description@, None::<Seq<char>>))] + g.bindings@.map_values(
            |b: (String, Vec<String>)| Some((b.0@, Some(binding_shown(b.1@)))),
        )
    }
}

/// The text shown for the keys of a binding.
pub open spec fn binding_shown(keys: Seq<String>) -> Seq<char> {
    binding_text(keys.map_values(|k: String| k@))
}

/// A row as text: `None` for an empty row, the title, or the description
/// and the keys of a binding.
pub open spec fn row_view(r: BindingRow) -> Option<(Seq<char>, Option<Seq<char>>)> {
    match r {
        BindingRow::Empty => None,
        BindingRow::Title(t) => Some((t@, None)),
        BindingRow::Binding { description, keys } => Some((description@, Some(keys@))),
    }
}

/// The rows of the key bindings popup: each group's title and bindings, an
/// empty row between groups; none of the rows can be selected.
pub fn key_bindings_rows(groups: &Vec<KeyGroup>) -> (r: (ListBuilder<Infallible>, Vec<BindingRow>))
    ensures
        r.1@.map_values(|x: BindingRow| row_view(x)) == binding_rows(groups@),
        r.0.spec_rows().len() == r.1@.len(),
        forall|i: int| 0 <= i < r.0.spec_rows().len() ==> #[trigger] r.0.spec_rows()[i] is None,
{
    let mut builder: ListBuilder<Infallible> = ListBuilder::new();
    let mut rows: Vec<BindingRow> = Vec::new();
    let mut g: usize = 0;
    assert(groups@.take(0) =~= Seq::<KeyGroup>::empty());
    while g < groups.len()
        invariant
            g <= groups@.len(),
            rows@.map_values(|x: BindingRow| row_view(x)) == binding_rows(groups@.take(g as int)),
            builder.spec_rows().len() == rows@.len(),
            forall|i: int| 0 <= i < builder.spec_rows().len() ==> #[trigger] builder.spec_rows()[i] is None,
        decreases groups@.len() - g,
    {
        let group = &groups[g];
        let ghost start = rows@.map_values(|x: BindingRow| row_view(x));
        proof {
            let t = groups@.take(g + 1);
            assert(t.drop_last() =~= groups@.take(g as int));
            assert(t.last() == groups@[g as int]);
        }
        if g > 0 {
            builder.add_unsel();
            rows.push(BindingRow::Empty);
        }
        let ghost with_sep = rows@.map_values(|x: BindingRow| row_view(x));
        builder.add_unsel();
        rows.push(BindingRow::Title(group.description.clone()));
        let ghost with_title = rows@.map_values(|x: BindingRow| row_view(x));
        assert(with_sep == start + (if g > 0 { seq![None] } else { seq![] }));
        let mut b: usize = 0;
        while b < group.bindings.len()
            invariant
                b <= group.bindings@.len(),
                rows@.map_values(|x: BindingRow| row_view(x)) == with_title + group.bindings@.take(b as int).map_values(
                    |x: (String, Vec<String>)| Some((x.0@, Some(binding_shown(x.1@)))),
                ),
                builder.spec_rows().len() == rows@.len(),
                forall|i: int| 0 <= i < builder.spec_rows().len() ==> #[trigger] builder.spec_rows()[i] is None,
            decreases group.bindings@.len() - b,
        {
            let (description, keys) = &group.bindings[b];
            let shown = format_binding(keys);
            let ghost before = rows@;
            builder.add_unsel();
            rows.push(BindingRow::Binding { description: description.clone(), keys: shown });
            proof {
                assert(rows@.map_values(|x: BindingRow| row_view(x)) =~= before.map_values(|x: BindingRow| row_view(x)).push(
                    row_view(rows@.last()),
                ));
                assert(group.bindings@.take(b + 1) =~= group.bindings@.take(b as int).push(group.bindings@[b as int]));
                if keys@.len() == 0 {
                    assert(keys@.map_values(|k: String| k@) =~= Seq::<Seq<char>>::empty());
                }
            }
            b += 1;
        }
        assert(group.bindings@.take(group.bindings@.len() as int) =~= group.bindings@);
        g += 1;
    }
    assert(groups@.take(groups@.len() as int) =~= groups@);
    (builder, rows)
}

/// What the event loop does after an event other than a key: redraw when
/// glyph widths or the terminal size changed, when the log changed while it
/// is shown, and when a room event changed what is shown.
pub fn handle_ui_event(mode: Mode, event: UiEventKind) -> (r: EventHandleResult)
    ensures
        r == match event {
            UiEventKind::GraphemeWidthsChanged => EventHandleResult::Redraw,
            UiEventKind::LogChanged => if mode == Mode::Log {
                EventHandleResult::Redraw
            } else {
                EventHandleResult::Continue
            },
            UiEventKind::Resize => EventHandleResult::Redraw,
            UiEventKind::Euph { shown } => if shown {
                EventHandleResult::Redraw
            } else {
                EventHandleResult::Continue
            },
        },
{
    match event {
        UiEventKind::GraphemeWidthsChanged => EventHandleResult::Redraw,
        UiEventKind::LogChanged => if mode == Mode::Log {
            EventHandleResult::Redraw
        } else {
            EventHandleResult::Continue
        },
        UiEventKind::Resize => EventHandleResult::Redraw,
        UiEventKind::Euph { shown } => if shown {
            EventHandleResult::Redraw
        } else {
            EventHandleResult::Continue
        },
    }
}

/// The main screen: what it shows, whether the key bindings are shown above
/// it, and the log.
pub struct Ui {
    mode: Mode,
    key_bindings_visible: bool,
    key_bindings_list: ListState<Infallible>,
    log_chat: ChatState<Logger>,
}

impl Ui {
    pub closed spec fn spec_mode(&self) -> Mode {
        self.mode
    }

    pub closed spec fn spec_key_bindings_visible(&self) -> bool {
        self.key_bindings_visible
    }

    pub closed spec fn spec_log_chat(&self) -> ChatState<Logger> {
        self.log_chat
    }

    /// The list of key bindings.
    pub closed spec fn spec_key_bindings_list(&self) -> ListState<Infallible> {
        self.key_bindings_list
    }

    /// The rooms, without the key bindings, with `logger` as the log.
    pub fn new(logger: Logger) -> (r: Self)
        ensures
            r.spec_mode() == Mode::Main,
            !r.spec_key_bindings_visible(),
            r.spec_log_chat().spec_store() == logger,
    {
        Ui { mode: Mode::Main, key_bindings_visible: false, key_bindings_list: ListState::new(), log_chat: ChatState::new(logger) }
    }

    pub fn mode(&self) -> (r: Mode)
        ensures
            r == self.spec_mode(),
    {
        self.mode
    }

    pub fn key_bindings_visible(&self) -> (r: bool)
        ensures
            r == self.spec_key_bindings_visible(),
    {
        self.key_bindings_visible
    }

    /// The log, to be drawn.
    pub fn log_chat(&self) -> (r: &ChatState<Logger>)
        ensures
            *r == self.spec_log_chat(),
    {
        &self.log_chat
    }

    /// The log changed: the shown log becomes `logger`.
    pub fn set_log(&mut self, logger: Logger)
        ensures
            final(self).spec_mode() == old(self).spec_mode(),
            final(self).spec_key_bindings_visible() == old(self).spec_key_bindings_visible(),
            final(self).spec_log_chat().spec_store() == logger,
            final(self).spec_log_chat().spec_cursor() == old(self).spec_log_chat().spec_cursor(),
    {
        self.log_chat.set_store(logger);
    }

    /// Reacts to a key: the exit key stops the client. While the key
    /// bindings are shown, only aborting, the help key (both hide them) and
    /// the list keys count. Otherwise the help key shows them; on the rooms
    /// screen the log key shows the log and other keys go to the rooms; in
    /// the log aborting or the log key go back and other keys move in it.
    /// `frame_height` is the height of the log's frame.
    pub fn handle_term_event(&mut self, keys: &KeyMatches, frame_height: u16) -> (r: TermRoute)
        requires
            frame_height >= 3,
        ensures
            keys.exit ==> r == TermRoute::Done(EventHandleResult::Stop) && *final(self) == *old(self),
            !keys.exit && old(self).spec_key_bindings_visible() ==> if keys.abort || keys.help {
                r == TermRoute::Done(EventHandleResult::Redraw) && !final(self).spec_key_bindings_visible()
                    && final(self).spec_mode() == old(self).spec_mode()
            } else {
                &&& final(self).spec_key_bindings_visible()
                &&& final(self).spec_mode() == old(self).spec_mode()
                &&& final(self).spec_log_chat() == old(self).spec_log_chat()
                &&& key_bindings_effect(*keys, old(self).spec_key_bindings_list(), final(self).spec_key_bindings_list())
                &&& r == if key_bindings_key(*keys) {
                    TermRoute::Done(EventHandleResult::Redraw)
                } else {
                    TermRoute::Done(EventHandleResult::Continue)
                }
            },
            !keys.exit && !old(self).spec_key_bindings_visible() && keys.help ==> r == TermRoute::Done(
                EventHandleResult::Redraw,
            ) && final(self).spec_key_bindings_visible() && final(self).spec_mode() == old(self).spec_mode(),
            !keys.exit && !old(self).spec_key_bindings_visible() && !keys.help && old(self).spec_mode() == Mode::Main ==> if keys.log {
                r == TermRoute::Done(EventHandleResult::Redraw) && final(self).spec_mode() == Mode::Log
            } else {
                r == TermRoute::ToRooms && *final(self) == *old(self)
            },
            !keys.exit && !old(self).spec_key_bindings_visible() && !keys.help && old(self).spec_mode() == Mode::Log ==> if keys.abort
                || keys.log {
                r == TermRoute::Done(EventHandleResult::Redraw) && final(self).spec_mode() == Mode::Main
            } else {
                &&& final(self).spec_mode() == Mode::Log
                &&& final(self).spec_key_bindings_visible() == old(self).spec_key_bindings_visible()
                &&& exists|reaction: TreeReaction|
                    chat_input::<LogMsg, Logger>(
                        old(self).spec_log_chat(),
                        final(self).spec_log_chat(),
                        *keys,
                        frame_height,
                        ""@,
                        false,
                        reaction,
                    ) && r == log_route(reaction)
            },
    {
        if keys.exit {
            return TermRoute::Done(EventHandleResult::Stop);
        }
        if self.key_bindings_visible {
            if keys.abort || keys.help {
                self.key_bindings_visible = false;
                return TermRoute::Done(EventHandleResult::Redraw);
            }
            if key_bindings_handle_input_event(&mut self.key_bindings_list, keys) {
                return TermRoute::Done(EventHandleResult::Redraw);
            }
            return TermRoute::Done(EventHandleResult::Continue);
        }
        if keys.help {
            self.key_bindings_visible = true;
            return TermRoute::Done(EventHandleResult::Redraw);
        }
        match self.mode {
            Mode::Main => {
                if keys.log {
                    self.mode = Mode::Log;
                    return TermRoute::Done(EventHandleResult::Redraw);
                }
                TermRoute::ToRooms
            },
            Mode::Log => {
                if keys.abort || keys.log {
                    self.mode = Mode::Main;
                    return TermRoute::Done(EventHandleResult::Redraw);
                }
                let ghost before = self.log_chat;
                let res = self.log_chat.handle_input_event::<LogMsg>(keys, frame_height, "", false);
                let ghost outcome = res;
                proof {
                    reveal_strlit("");
                    if let Ok(reaction) = outcome {
                        assert(chat_input::<LogMsg, Logger>(
                            before,
                            self.log_chat,
                            *keys,
                            frame_height,
                            ""@,
                            false,
                            reaction,
                        ));
                    }
                }
                let route = match res {
                    Ok(TreeReaction::NotHandled) => TermRoute::Done(EventHandleResult::Continue),
                    Ok(TreeReaction::ScrollBy(delta)) => TermRoute::ScrollLog(delta),
                    Ok(TreeReaction::CenterCursor) => TermRoute::CenterLog,
                    Ok(_) => TermRoute::Done(EventHandleResult::Redraw),
                    Err(_) => TermRoute::Done(EventHandleResult::Continue),
                };
                proof {
                    assert(outcome is Ok);
                    let reaction = outcome->Ok_0;
                    assert(route == log_route(reaction));
                    assert(chat_input::<LogMsg, Logger>(
                        before,
                        self.log_chat,
                        *keys,
                        frame_height,
                        ""@,
                        false,
                        reaction,
                    ) && route == log_route(reaction));
                }
                route
            },
        }
    }
}

} // verus!
