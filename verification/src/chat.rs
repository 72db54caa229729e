//! Reactions of a chat to input events.

use vstd::prelude::*;

use crate::cursor::Cursor;
use crate::store::{Msg, MsgStore};
use crate::keys::KeyMatches;
use crate::tree_view::{input_reaction, TreeReaction, TreeViewState};
use crate::util::{caesar, spec_caesar};

verus! {

/// How messages are shown.
pub enum Mode {
    Tree,
}

/// How a chat reacted to an input event.
pub enum Reaction<Id> {
    NotHandled,
    Handled,
    Composed { parent: Option<Id>, content: String },
}

impl<Id> Reaction<Id> {
    /// Whether the event was handled.
    pub fn handled(&self) -> (r: bool)
        ensures
            r == !(*self is NotHandled),
    {
        match self {
            Self::NotHandled => false,
            _ => true,
        }
    }
}

/// Errors when talking to a room.
#[derive(Debug, Clone, Copy, PartialEq, Eq, Structural)]
pub enum Error {
    NotConnected,
}

impl Error {
    /// The error message.
    pub fn message(&self) -> (r: &'static str)
        ensures
            r@ == "not connected to room"@,
    {
        "not connected to room"
    }
}

/// `x` modulo 26, in `0..26`.
fn rem_euclid_26(x: i16) -> (r: i8)
    ensures
        r as int == x as int % 26,
        0 <= r < 26,
{
    if x >= 0 {
        let m: u16 = (x as u16) % 26;
        m as i8
    } else {
        let y: u32 = ((-(x as i32)) as u32) % 26;
        if y == 0 {
            assert((x as int) % 26 == 0) by {
                assert(-(x as int) == 26 * (-(x as int) / 26));
            }
            0
        } else {
            assert((x as int) % 26 == 26 - y) by {
                let q = -(x as int) / 26;
                assert(-(x as int) == 26 * q + y);
                assert(x as int == 26 * (-q - 1) + (26 - y));
            }
            (26 - y) as i8
        }
    }
}

/// A chat: the messages of a store, a cursor among them, and how they are
/// shown.
pub struct ChatState<S> {
    store: S,
    cursor: Cursor<u64>,
    nick_emoji: bool,
    caesar: i8,
    mode: Mode,
    tree: TreeViewState<S>,
}

/// What the chat makes of the tree view's reaction `t`: a composed
/// message is rotated by the chat's Caesar shift; an unhandled key may
/// toggle the nick emoji or change the shift; other reactions pass.
pub open spec fn chat_reaction<S>(old: ChatState<S>, new: ChatState<S>, keys: KeyMatches, t: TreeReaction, r: TreeReaction) -> bool {
    match t {
        TreeReaction::NotHandled => if keys.toggle_nick_emoji {
            r is Handled && new.spec_nick_emoji() == !old.spec_nick_emoji() && new.spec_caesar() == old.spec_caesar()
        } else if keys.increase_caesar {
            r is Handled && new.spec_nick_emoji() == old.spec_nick_emoji() && new.spec_caesar() as int == (
            old.spec_caesar() + 1) % 26
        } else if keys.decrease_caesar {
            r is Handled && new.spec_nick_emoji() == old.spec_nick_emoji() && new.spec_caesar() as int == (
            old.spec_caesar() - 1) % 26
        } else {
            r is NotHandled && new.spec_nick_emoji() == old.spec_nick_emoji() && new.spec_caesar() == old.spec_caesar()
        },
        TreeReaction::Composed { parent, content } => new.spec_nick_emoji() == old.spec_nick_emoji()
            && new.spec_caesar() == old.spec_caesar() && (r matches TreeReaction::Composed {
            parent: p,
            content: c,
        } && p == parent && c@ == if old.spec_caesar() != 0 {
            spec_caesar(content@, old.spec_caesar() as int)
        } else {
            content@
        }),
        _ => r == t && new.spec_nick_emoji() == old.spec_nick_emoji() && new.spec_caesar() == old.spec_caesar(),
    }
}

/// How the chat reacts to a key: the tree view reacts (as
/// [`input_reaction`] says) and the chat makes of that what
/// [`chat_reaction`] says; the store stays.
pub open spec fn chat_input<M: Msg, S: MsgStore<M>>(
    old: ChatState<S>,
    new: ChatState<S>,
    keys: KeyMatches,
    frame_height: u16,
    text: Seq<char>,
    can_compose: bool,
    r: TreeReaction,
) -> bool {
    &&& new.spec_store() == old.spec_store()
    &&& exists|t: TreeReaction|
        #[trigger] input_reaction::<M, S>(
            old.spec_tree(),
            new.spec_tree(),
            keys,
            frame_height,
            old.spec_cursor(),
            new.spec_cursor(),
            text,
            can_compose,
            t,
        ) && chat_reaction(old, new, keys, t, r)
}

impl<S> ChatState<S> {
    pub closed spec fn spec_store(&self) -> S {
        self.store
    }

    pub closed spec fn spec_cursor(&self) -> Cursor<u64> {
        self.cursor
    }

    pub closed spec fn spec_nick_emoji(&self) -> bool {
        self.nick_emoji
    }

    /// By how many letters composed messages are rotated.
    pub closed spec fn spec_caesar(&self) -> i8 {
        self.caesar
    }

    pub closed spec fn spec_tree(&self) -> TreeViewState<S> {
        self.tree
    }

    /// A chat over `store`, with the cursor at the bottom; the tree view
    /// gets a clone of the store.
    pub fn new(store: S) -> (r: Self)
        where
            S: Clone,
        ensures
            r.spec_store() == store,
            r.spec_cursor() == Cursor::<u64>::Bottom,
            !r.spec_nick_emoji(),
            r.spec_caesar() == 0,
            cloned(store, r.spec_tree().spec_store()),
            r.spec_tree().spec_folded() == Set::<u64>::empty(),
            r.spec_tree().spec_last_cursor() == Cursor::<u64>::Bottom,
    {
        let tree = TreeViewState::new(store.clone());
        ChatState { store, cursor: Cursor::Bottom, nick_emoji: false, caesar: 0, mode: Mode::Tree, tree }
    }

    /// Replaces the store (and the tree view's clone of it), which changed
    /// elsewhere.
    pub fn set_store(&mut self, store: S)
        where
            S: Clone,
        ensures
            final(self).spec_store() == store,
            cloned(store, final(self).spec_tree().spec_store()),
            final(self).spec_cursor() == old(self).spec_cursor(),
            final(self).spec_nick_emoji() == old(self).spec_nick_emoji(),
            final(self).spec_caesar() == old(self).spec_caesar(),
            final(self).spec_tree().spec_folded() == old(self).spec_tree().spec_folded(),
    {
        self.tree.set_store(store.clone());
        self.store = store;
    }

    /// Whether nicks are shown with their emoji.
    pub fn nick_emoji(&self) -> (r: bool)
        ensures
            r == self.spec_nick_emoji(),
    {
        self.nick_emoji
    }

    pub fn store(&self) -> (r: &S)
        ensures
            *r == self.spec_store(),
    {
        &self.store
    }

    /// The tree view, to be drawn.
    pub fn tree(&self) -> (r: &TreeViewState<S>)
        ensures
            *r == self.spec_tree(),
    {
        &self.tree
    }

    /// The message the cursor is on, if it is on one.
    pub fn cursor(&self) -> (r: Option<&u64>)
        ensures
            match self.spec_cursor() {
                Cursor::Msg(id) => r == Some(&id),
                _ => r is None,
            },
    {
        match &self.cursor {
            Cursor::Msg(id) => Some(id),
            _ => None,
        }
    }

    /// What the chat makes of the tree view's reaction: a composed message
    /// is rotated by the chat's Caesar shift; an unhandled event may toggle
    /// the nick emoji or change the shift.
    pub fn finish_reaction(&mut self, keys: &KeyMatches, reaction: Reaction<u64>) -> (r: Reaction<u64>)
        ensures
            !(reaction is NotHandled && (keys.toggle_nick_emoji || keys.increase_caesar || keys.decrease_caesar))
                ==> *final(self) == *old(self),
            final(self).spec_store() == old(self).spec_store(),
            final(self).spec_cursor() == old(self).spec_cursor(),
            final(self).spec_tree() == old(self).spec_tree(),
            match reaction {
                Reaction::Composed { parent, content } => final(self).spec_nick_emoji() == old(self).spec_nick_emoji()
                    && final(self).spec_caesar() == old(self).spec_caesar()
                    && (r matches Reaction::Composed { parent: p, content: c } && p == parent && c@ == if old(self).spec_caesar() != 0 {
                        spec_caesar(content@, old(self).spec_caesar() as int)
                    } else {
                        content@
                    }),
                Reaction::NotHandled => if keys.toggle_nick_emoji {
                    r is Handled && final(self).spec_nick_emoji() == !old(self).spec_nick_emoji()
                        && final(self).spec_caesar() == old(self).spec_caesar()
                } else if keys.increase_caesar {
                    r is Handled && final(self).spec_nick_emoji() == old(self).spec_nick_emoji()
                        && final(self).spec_caesar() as int == (old(self).spec_caesar() + 1) % 26
                } else if keys.decrease_caesar {
                    r is Handled && final(self).spec_nick_emoji() == old(self).spec_nick_emoji()
                        && final(self).spec_caesar() as int == (old(self).spec_caesar() - 1) % 26
                } else {
                    r is NotHandled && final(self).spec_nick_emoji() == old(self).spec_nick_emoji()
                        && final(self).spec_caesar() == old(self).spec_caesar()
                },
                Reaction::Handled => r is Handled && final(self).spec_nick_emoji() == old(self).spec_nick_emoji()
                    && final(self).spec_caesar() == old(self).spec_caesar(),
            },
    {
        match reaction {
            Reaction::Composed { parent, content } => {
                if self.caesar != 0 {
                    Reaction::Composed { parent, content: caesar(content.as_str(), self.caesar) }
                } else {
                    Reaction::Composed { parent, content }
                }
            },
            Reaction::NotHandled => {
                if keys.toggle_nick_emoji {
                    self.nick_emoji = !self.nick_emoji;
                    Reaction::Handled
                } else if keys.increase_caesar {
                    self.caesar = rem_euclid_26(self.caesar as i16 + 1);
                    Reaction::Handled
                } else if keys.decrease_caesar {
                    self.caesar = rem_euclid_26(self.caesar as i16 - 1);
                    Reaction::Handled
                } else {
                    Reaction::NotHandled
                }
            },
            Reaction::Handled => Reaction::Handled,
        }
    }

    /// Reacts to an input event: the tree view reacts first, then the chat
    /// makes of it what [`Self::finish_reaction`] says. Scrolling and editing
    /// are left to the caller, who finishes an editor's reaction the same
    /// way. `text` is what the editor holds.
    pub fn handle_input_event<M: Msg>(&mut self, keys: &KeyMatches, frame_height: u16, text: &str, can_compose: bool) -> (r: Result<TreeReaction, S::Error>)
        where
            S: MsgStore<M>,
        requires
            frame_height >= 3,
        ensures
            S::spec_never_fails() ==> r is Ok,
            final(self).spec_store() == old(self).spec_store(),
            final(self).spec_tree().spec_last_cursor() == old(self).spec_tree().spec_last_cursor(),
            r matches Ok(reaction) ==> chat_input::<M, S>(
                *old(self),
                *final(self),
                *keys,
                frame_height,
                text@,
                can_compose,
                reaction,
            ),
    {
        let mode_reaction = match self.mode {
            Mode::Tree => self.tree.handle_input_event(keys, frame_height, &mut self.cursor, text, can_compose),
        };
        match mode_reaction {
            Err(e) => Err(e),
            Ok(TreeReaction::NotHandled) => {
                match self.finish_reaction(keys, Reaction::NotHandled) {
                    Reaction::Handled => Ok(TreeReaction::Handled),
                    _ => Ok(TreeReaction::NotHandled),
                }
            },
            Ok(TreeReaction::Composed { parent, content }) => {
                match self.finish_reaction(keys, Reaction::Composed { parent, content }) {
                    Reaction::Composed { parent, content } => Ok(TreeReaction::Composed { parent, content }),
                    Reaction::Handled => Ok(TreeReaction::Handled),
                    Reaction::NotHandled => Ok(TreeReaction::NotHandled),
                }
            },
            Ok(other) => Ok(other),
        }
    }

    /// A composed message was sent and got id `id`: the cursor moves from
    /// the pending message to it. Returns whether it did, in which case the
    /// editor is to be cleared.
    pub fn send_successful(&mut self, id: u64) -> (r: bool)
        ensures
            r == (old(self).spec_cursor() is Pseudo),
            final(self).spec_cursor() == if r {
                Cursor::Msg(id)
            } else {
                old(self).spec_cursor()
            },
            final(self).spec_store() == old(self).spec_store(),
            final(self).spec_tree().spec_last_cursor() == if r {
                match old(self).spec_tree().spec_last_cursor() {
                    Cursor::Pseudo { .. } => Cursor::Msg(id),
                    c => c,
                }
            } else {
                old(self).spec_tree().spec_last_cursor()
            },
    {
        if let Cursor::Pseudo { .. } = self.cursor {
            self.tree.send_successful(id);
            self.cursor = Cursor::Msg(id);
            true
        } else {
            false
        }
    }

    /// A composed message could not be sent: the cursor goes back to where
    /// composing started.
    pub fn send_failed(&mut self)
        ensures
            final(self).spec_cursor() == match old(self).spec_cursor() {
                Cursor::Pseudo { coming_from: Some(id), .. } => Cursor::Msg(id),
                Cursor::Pseudo { coming_from: None, .. } => Cursor::Bottom,
                c => c,
            },
            final(self).spec_store() == old(self).spec_store(),
            final(self).spec_tree() == old(self).spec_tree(),
    {
        if let Cursor::Pseudo { coming_from, .. } = self.cursor {
            self.cursor = match coming_from {
                Some(id) => Cursor::Msg(id),
                None => Cursor::Bottom,
            };
        }
    }
}

} // verus!
