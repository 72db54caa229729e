//! A chat shown as full message trees: how it reacts to input.
//!
//! Which key bindings an input event matches is decided outside and handed
//! in as [`KeyMatches`]; where drawing has work left (scrolling, editing text),
//! the reaction says so and the caller does it.

use std::collections::HashSet;

use vstd::prelude::*;

use crate::cursor::{
    alternate_reply_for, moved_down, moved_newer, moved_older, moved_to_next_sibling,
    moved_to_parent, moved_to_prev_sibling, moved_to_root, moved_to_top, moved_up,
    normal_reply_for, Cursor,
};
use crate::blocks::{Block, Range};
use crate::cursor::TreeBlockId;
use crate::keys::KeyMatches;
use crate::tree_renderer::{
    cursor_ancestors, cursor_on, spec_block_id, Predraw, TreeContext, TreeRenderer, MAX_OFFSET,
};
use crate::store::{Msg, MsgStore};
use crate::text::{spec_trim, trim};
use vstd::string::StringExecFns;

verus! {

broadcast use vstd::std_specs::hash::group_hash_axioms;

/// A movement of the cursor or of the view.
#[derive(Debug, Clone, Copy, PartialEq, Eq, Structural)]
pub enum Movement {
    Up,
    Down,
    ToTop,
    ToBottom,
    ToAboveSibling,
    ToBelowSibling,
    ToParent,
    ToRoot,
    ToOlderMessage,
    ToNewerMessage,
    ToOlderUnseenMessage,
    ToNewerUnseenMessage,
    ScrollUpLine,
    ScrollDownLine,
    ScrollUpHalf,
    ScrollDownHalf,
    ScrollUpFull,
    ScrollDownFull,
    CenterCursor,
}

/// The movement an event asks for: the first binding it matches, in the
/// order cursor keys, tree cursor keys, scroll keys.
pub open spec fn spec_movement_of(k: KeyMatches) -> Option<Movement> {
    if k.cursor_up {
        Some(Movement::Up)
    } else if k.cursor_down {
        Some(Movement::Down)
    } else if k.cursor_to_top {
        Some(Movement::ToTop)
    } else if k.cursor_to_bottom {
        Some(Movement::ToBottom)
    } else if k.to_above_sibling {
        Some(Movement::ToAboveSibling)
    } else if k.to_below_sibling {
        Some(Movement::ToBelowSibling)
    } else if k.to_parent {
        Some(Movement::ToParent)
    } else if k.to_root {
        Some(Movement::ToRoot)
    } else if k.to_older_message {
        Some(Movement::ToOlderMessage)
    } else if k.to_newer_message {
        Some(Movement::ToNewerMessage)
    } else if k.to_older_unseen_message {
        Some(Movement::ToOlderUnseenMessage)
    } else if k.to_newer_unseen_message {
        Some(Movement::ToNewerUnseenMessage)
    } else if k.scroll_up_line {
        Some(Movement::ScrollUpLine)
    } else if k.scroll_down_line {
        Some(Movement::ScrollDownLine)
    } else if k.scroll_up_half {
        Some(Movement::ScrollUpHalf)
    } else if k.scroll_down_half {
        Some(Movement::ScrollDownHalf)
    } else if k.scroll_up_full {
        Some(Movement::ScrollUpFull)
    } else if k.scroll_down_full {
        Some(Movement::ScrollDownFull)
    } else if k.scroll_center_cursor {
        Some(Movement::CenterCursor)
    } else {
        None
    }
}

/// The movement an event asks for, if any.
pub fn movement_of(k: &KeyMatches) -> (r: Option<Movement>)
    ensures
        r == spec_movement_of(*k),
{
    if k.cursor_up {
        Some(Movement::Up)
    } else if k.cursor_down {
        Some(Movement::Down)
    } else if k.cursor_to_top {
        Some(Movement::ToTop)
    } else if k.cursor_to_bottom {
        Some(Movement::ToBottom)
    } else if k.to_above_sibling {
        Some(Movement::ToAboveSibling)
    } else if k.to_below_sibling {
        Some(Movement::ToBelowSibling)
    } else if k.to_parent {
        Some(Movement::ToParent)
    } else if k.to_root {
        Some(Movement::ToRoot)
    } else if k.to_older_message {
        Some(Movement::ToOlderMessage)
    } else if k.to_newer_message {
        Some(Movement::ToNewerMessage)
    } else if k.to_older_unseen_message {
        Some(Movement::ToOlderUnseenMessage)
    } else if k.to_newer_unseen_message {
        Some(Movement::ToNewerUnseenMessage)
    } else if k.scroll_up_line {
        Some(Movement::ScrollUpLine)
    } else if k.scroll_down_line {
        Some(Movement::ScrollDownLine)
    } else if k.scroll_up_half {
        Some(Movement::ScrollUpHalf)
    } else if k.scroll_down_half {
        Some(Movement::ScrollDownHalf)
    } else if k.scroll_up_full {
        Some(Movement::ScrollUpFull)
    } else if k.scroll_down_full {
        Some(Movement::ScrollDownFull)
    } else if k.scroll_center_cursor {
        Some(Movement::CenterCursor)
    } else {
        None
    }
}

/// How the tree view reacted to an input event.
pub enum TreeReaction {
    NotHandled,
    Handled,
    /// A message was composed as a reply to `parent` (or as a new thread).
    Composed { parent: Option<u64>, content: String },
    /// The view is to be scrolled by this many lines (up where positive).
    ScrollBy(i32),
    /// The view is to be scrolled so the cursor is centered.
    CenterCursor,
    /// The event is for the text editor.
    ToEditor,
}

/// Whether `m` moves the cursor through the store, which may fail.
pub open spec fn reads_store(m: Movement) -> bool {
    !(m is ToBottom || m is ScrollUpLine || m is ScrollDownLine || m is ScrollUpHalf || m is ScrollDownHalf
        || m is ScrollUpFull || m is ScrollDownFull || m is CenterCursor)
}

/// The cursor after `m`.
pub open spec fn moved_by<M: Msg, S: MsgStore<M>>(store: S, folded: Set<u64>, c: Cursor<u64>, m: Movement) -> Cursor<u64> {
    match m {
        Movement::Up => moved_up(store, folded, c),
        Movement::Down => moved_down(store, folded, c),
        Movement::ToTop => moved_to_top(store, c),
        Movement::ToBottom => Cursor::Bottom,
        Movement::ToAboveSibling => moved_to_prev_sibling(store, c),
        Movement::ToBelowSibling => moved_to_next_sibling(store, c),
        Movement::ToParent => moved_to_parent(store, c),
        Movement::ToRoot => moved_to_root(store, c),
        Movement::ToOlderMessage => match c {
            Cursor::Msg(id) => moved_older(c, store.spec_older_msg_id(id), None),
            _ => moved_older(c, None, store.spec_newest_msg_id()),
        },
        Movement::ToNewerMessage => match c {
            Cursor::Msg(id) => moved_newer(c, store.spec_newer_msg_id(id)),
            _ => moved_newer(c, None),
        },
        Movement::ToOlderUnseenMessage => match c {
            Cursor::Msg(id) => moved_older(c, store.spec_older_unseen_msg_id(id), None),
            _ => moved_older(c, None, store.spec_newest_unseen_msg_id()),
        },
        Movement::ToNewerUnseenMessage => match c {
            Cursor::Msg(id) => moved_newer(c, store.spec_newer_unseen_msg_id(id)),
            _ => moved_newer(c, None),
        },
        _ => c,
    }
}

/// The lines the chat's messages have in a frame of `frame_height` lines.
pub open spec fn chat_height(frame_height: u16) -> int {
    frame_height - 3
}

/// What is left to do after `m` in a frame of `frame_height` lines:
/// scrolling by one line, half the chat or all of it but one line, or
/// centering the cursor; nothing for cursor movements.
pub open spec fn movement_reaction(m: Movement, frame_height: u16) -> TreeReaction {
    let h = chat_height(frame_height);
    let full = h - 1;
    match m {
        Movement::ScrollUpLine => TreeReaction::ScrollBy(1i32),
        Movement::ScrollDownLine => TreeReaction::ScrollBy(-1i32),
        Movement::ScrollUpHalf => TreeReaction::ScrollBy((h / 2) as i32),
        Movement::ScrollDownHalf => TreeReaction::ScrollBy((-(h / 2)) as i32),
        Movement::ScrollUpFull => TreeReaction::ScrollBy(full as i32),
        Movement::ScrollDownFull => TreeReaction::ScrollBy((-full) as i32),
        Movement::CenterCursor => TreeReaction::CenterCursor,
        _ => TreeReaction::Handled,
    }
}

/// `s` with `id` taken out if it was in, put in if it was not.
pub open spec fn toggled(s: Set<u64>, id: u64) -> Set<u64> {
    if s.contains(id) {
        s.remove(id)
    } else {
        s.insert(id)
    }
}

/// The store after each of `ids` is marked as seen, in order.
pub open spec fn seen_all<M: Msg, S: MsgStore<M>>(store: S, ids: Seq<u64>) -> S
    decreases ids.len(),
{
    if ids.len() == 0 {
        store
    } else {
        seen_all::<M, S>(store, ids.drop_last()).spec_with_seen(ids.last(), true)
    }
}

/// The part of a chat shown as message trees.
pub struct TreeViewState<S> {
    store: S,
    last_nick: String,
    last_cursor: Cursor<u64>,
    last_cursor_top: i32,
    last_visible_msgs: Vec<u64>,
    folded: HashSet<u64>,
}

/// The store after an action key on message `id` (or on no message):
/// toggling whether the message is seen (as the tree it is in says),
/// marking all messages visible when last drawn as seen, or marking the
/// message and all older ones (all messages, without a message) as seen.
pub open spec fn marked<M: Msg, S: MsgStore<M>>(view: TreeViewState<S>, keys: KeyMatches, id: Option<u64>) -> S {
    let store = view.spec_store();
    if keys.fold_tree {
        store
    } else if keys.toggle_seen {
        match id {
            Some(i) => {
                let msgs = store.spec_tree(i).spec_msgs();
                if msgs.contains_key(i) {
                    store.spec_with_seen(i, !msgs[i].spec_seen())
                } else {
                    store
                }
            },
            None => store,
        }
    } else if keys.mark_visible_seen {
        seen_all::<M, S>(store, view.spec_last_visible_msgs())
    } else if keys.mark_older_seen {
        store.spec_with_older_seen(
            match id {
                Some(i) => i,
                None => M::spec_last_possible_id(),
            },
            true,
        )
    } else {
        store
    }
}

/// Where a key that starts composing puts the cursor, coming from message
/// `id`: into the editor below the message the reply goes to (the normal
/// or the other way), or below nothing for a new thread.
pub open spec fn initiated<M: Msg, S: MsgStore<M>>(store: S, cursor: Cursor<u64>, keys: KeyMatches, id: Option<u64>) -> Cursor<u64> {
    if keys.reply {
        match normal_reply_for(store, cursor) {
            Some(parent) => Cursor::Editor { coming_from: id, parent },
            None => cursor,
        }
    } else if keys.reply_alternate {
        match alternate_reply_for(store, cursor) {
            Some(parent) => Cursor::Editor { coming_from: id, parent },
            None => cursor,
        }
    } else if keys.new_thread {
        Cursor::Editor { coming_from: id, parent: None }
    } else {
        cursor
    }
}

/// How the view reacts to a key while the cursor is on message `id` (or on
/// no message): movement keys move the cursor, action keys fold or mark
/// messages, keys that start composing (where allowed) open the editor, and
/// other keys are not handled.
pub open spec fn normal_reaction<M: Msg, S: MsgStore<M>>(
    old: TreeViewState<S>,
    new: TreeViewState<S>,
    keys: KeyMatches,
    frame_height: u16,
    old_cursor: Cursor<u64>,
    new_cursor: Cursor<u64>,
    can_compose: bool,
    id: Option<u64>,
    reaction: TreeReaction,
) -> bool {
    match spec_movement_of(keys) {
        Some(m) => new_cursor == moved_by(old.spec_store(), old.spec_folded(), old_cursor, m) && reaction
            == movement_reaction(m, frame_height) && new == old,
        None => if keys.fold_tree || keys.toggle_seen || keys.mark_visible_seen || keys.mark_older_seen {
            &&& reaction is Handled
            &&& new_cursor == old_cursor
            &&& new.spec_folded() == if keys.fold_tree && id is Some {
                toggled(old.spec_folded(), id->0)
            } else {
                old.spec_folded()
            }
            &&& new.spec_store() == marked::<M, S>(old, keys, id)
            &&& new.spec_last_visible_msgs() == old.spec_last_visible_msgs()
            &&& new.spec_last_cursor() == old.spec_last_cursor()
        } else if can_compose && (keys.reply || keys.reply_alternate || keys.new_thread) {
            reaction is Handled && new == old && new_cursor == initiated::<M, S>(old.spec_store(), old_cursor, keys, id)
        } else {
            reaction is NotHandled && new_cursor == old_cursor && new == old
        },
    }
}

/// How the view reacts to a key, wherever the cursor is: on a message or
/// at the bottom as [`normal_reaction`] says, in the editor as
/// [`editor_reaction`] says (with `text` in the editor), and while a message
/// is being sent only to movement keys.
pub open spec fn input_reaction<M: Msg, S: MsgStore<M>>(
    old: TreeViewState<S>,
    new: TreeViewState<S>,
    keys: KeyMatches,
    frame_height: u16,
    old_cursor: Cursor<u64>,
    new_cursor: Cursor<u64>,
    text: Seq<char>,
    can_compose: bool,
    reaction: TreeReaction,
) -> bool {
    match old_cursor {
        Cursor::Bottom => normal_reaction::<M, S>(
            old,
            new,
            keys,
            frame_height,
            old_cursor,
            new_cursor,
            can_compose,
            None,
            reaction,
        ),
        Cursor::Msg(id) => normal_reaction::<M, S>(
            old,
            new,
            keys,
            frame_height,
            old_cursor,
            new_cursor,
            can_compose,
            Some(id),
            reaction,
        ),
        Cursor::Editor { coming_from, parent } => new == old && editor_reaction(
            keys,
            old_cursor,
            new_cursor,
            text,
            coming_from,
            parent,
            reaction,
        ),
        Cursor::Pseudo { .. } => new == old && match spec_movement_of(keys) {
            Some(m) => new_cursor == moved_by(old.spec_store(), old.spec_folded(), old_cursor, m) && reaction
                == movement_reaction(m, frame_height),
            None => new_cursor == old_cursor && reaction is NotHandled,
        },
    }
}

/// Toggling whether a message is seen flips its flag: the store marks it as
/// seen exactly when it was unseen (and a message that is not in its tree
/// is left alone).
pub proof fn lemma_toggle_seen_flips<M: Msg, S: MsgStore<M>>(view: TreeViewState<S>, keys: KeyMatches, id: u64)
    requires
        keys.toggle_seen,
        !keys.fold_tree,
    ensures
        ({
            let store = view.spec_store();
            let msgs = store.spec_tree(id).spec_msgs();
            &&& msgs.contains_key(id) && msgs[id].spec_seen() ==> marked::<M, S>(view, keys, Some(id))
                == store.spec_with_seen(id, false)
            &&& msgs.contains_key(id) && !msgs[id].spec_seen() ==> marked::<M, S>(view, keys, Some(id))
                == store.spec_with_seen(id, true)
            &&& !msgs.contains_key(id) ==> marked::<M, S>(view, keys, Some(id)) == store
        }),
{
}

impl<S> TreeViewState<S> {
    pub closed spec fn spec_store(&self) -> S {
        self.store
    }

    /// The messages whose replies are hidden.
    pub closed spec fn spec_folded(&self) -> Set<u64> {
        self.folded@
    }

    /// Where the cursor was when the view was last drawn.
    pub closed spec fn spec_last_cursor(&self) -> Cursor<u64> {
        self.last_cursor
    }

    /// The messages visible when the view was last drawn.
    pub closed spec fn spec_last_visible_msgs(&self) -> Seq<u64> {
        self.last_visible_msgs@
    }

    pub fn new(store: S) -> (r: Self)
        ensures
            r.spec_store() == store,
            r.spec_folded() == Set::<u64>::empty(),
            r.spec_last_cursor() == Cursor::<u64>::Bottom,
            r.spec_last_visible_msgs() == Seq::<u64>::empty(),
    {
        TreeViewState {
            store,
            last_nick: String::new(),
            last_cursor: Cursor::Bottom,
            last_cursor_top: 0,
            last_visible_msgs: Vec::new(),
            folded: HashSet::new(),
        }
    }

    pub fn store(&self) -> (r: &S)
        ensures
            *r == self.spec_store(),
    {
        &self.store
    }

    /// Replaces the store, which changed elsewhere.
    pub fn set_store(&mut self, store: S)
        ensures
            final(self).spec_store() == store,
            final(self).spec_folded() == old(self).spec_folded(),
            final(self).spec_last_cursor() == old(self).spec_last_cursor(),
            final(self).spec_last_visible_msgs() == old(self).spec_last_visible_msgs(),
    {
        self.store = store;
    }

    /// Whether message `id` is folded.
    pub fn is_folded(&self, id: u64) -> (r: bool)
        ensures
            r == self.spec_folded().contains(id),
    {
        self.folded.contains(&id)
    }

    /// Remembers what the last drawing showed: the nick, where the cursor
    /// was and at which line, and which messages were visible.
    pub fn update_render_info(&mut self, nick: String, cursor: Cursor<u64>, cursor_top: i32, visible: Vec<u64>)
        ensures
            final(self).spec_store() == old(self).spec_store(),
            final(self).spec_folded() == old(self).spec_folded(),
            final(self).spec_last_cursor() == cursor,
            final(self).spec_last_visible_msgs() == visible@,
    {
        self.last_nick = nick;
        self.last_cursor = cursor;
        self.last_cursor_top = cursor_top;
        self.last_visible_msgs = visible;
    }

    /// A composed message was sent and got id `id`: where the last drawing
    /// had the pending message, it now has that message.
    pub fn send_successful(&mut self, id: u64)
        ensures
            final(self).spec_store() == old(self).spec_store(),
            final(self).spec_folded() == old(self).spec_folded(),
            final(self).spec_last_visible_msgs() == old(self).spec_last_visible_msgs(),
            final(self).spec_last_cursor() == match old(self).spec_last_cursor() {
                Cursor::Pseudo { .. } => Cursor::Msg(id),
                c => c,
            },
    {
        if let Cursor::Pseudo { .. } = self.last_cursor {
            self.last_cursor = Cursor::Msg(id);
        }
    }

    /// Reacts to a movement key: moves the cursor, or says how to scroll.
    /// `frame_height` is the height of the chat's frame.
    pub fn handle_movement_input_event<M: Msg>(&self, keys: &KeyMatches, frame_height: u16, cursor: &mut Cursor<u64>) -> (r: Result<TreeReaction, S::Error>)
        where
            S: MsgStore<M>,
        requires
            frame_height >= 3,
        ensures
            S::spec_never_fails() ==> r is Ok,
            match spec_movement_of(*keys) {
                Some(m) => !reads_store(m) ==> r is Ok,
                None => r is Ok,
            },
            match r {
                Ok(reaction) => match spec_movement_of(*keys) {
                    Some(m) => *final(cursor) == moved_by(self.spec_store(), self.spec_folded(), *old(cursor), m)
                        && reaction == movement_reaction(m, frame_height),
                    None => *final(cursor) == *old(cursor) && reaction is NotHandled,
                },
                Err(_) => *final(cursor) == *old(cursor),
            },
    {
        let chat_height: i32 = (frame_height - 3) as i32;
        let m = match movement_of(keys) {
            Some(m) => m,
            None => {
                return Ok(TreeReaction::NotHandled);
            },
        };
        let moved = match m {
            Movement::Up => cursor.move_up_in_tree(&self.store, &self.folded),
            Movement::Down => cursor.move_down_in_tree(&self.store, &self.folded),
            Movement::ToTop => cursor.move_to_top(&self.store),
            Movement::ToBottom => {
                cursor.move_to_bottom();
                Ok(())
            },
            Movement::ToAboveSibling => cursor.move_to_prev_sibling(&self.store),
            Movement::ToBelowSibling => cursor.move_to_next_sibling(&self.store),
            Movement::ToParent => cursor.move_to_parent(&self.store),
            Movement::ToRoot => cursor.move_to_root(&self.store),
            Movement::ToOlderMessage => cursor.move_to_older_msg(&self.store),
            Movement::ToNewerMessage => cursor.move_to_newer_msg(&self.store),
            Movement::ToOlderUnseenMessage => cursor.move_to_older_unseen_msg(&self.store),
            Movement::ToNewerUnseenMessage => cursor.move_to_newer_unseen_msg(&self.store),
            _ => Ok(()),
        };
        if let Err(e) = moved {
            return Err(e);
        }
        let full = chat_height - 1;
        Ok(
            match m {
                Movement::ScrollUpLine => TreeReaction::ScrollBy(1),
                Movement::ScrollDownLine => TreeReaction::ScrollBy(-1),
                Movement::ScrollUpHalf => TreeReaction::ScrollBy(chat_height / 2),
                Movement::ScrollDownHalf => TreeReaction::ScrollBy(-(chat_height / 2)),
                Movement::ScrollUpFull => TreeReaction::ScrollBy(full),
                Movement::ScrollDownFull => TreeReaction::ScrollBy(-full),
                Movement::CenterCursor => TreeReaction::CenterCursor,
                _ => TreeReaction::Handled,
            },
        )
    }

    /// Reacts to an action key on message `id` (or on no message): folding
    /// and unfolding, and marking messages as seen. Returns whether the
    /// event was such a key.
    pub fn handle_action_input_event<M: Msg>(&mut self, keys: &KeyMatches, id: Option<u64>) -> (r: Result<bool, S::Error>)
        where
            S: MsgStore<M>,
        ensures
            S::spec_never_fails() ==> r is Ok,
            keys.fold_tree ==> (r matches Ok(handled) && handled),
            r matches Ok(handled) ==> handled == (keys.fold_tree || keys.toggle_seen || keys.mark_visible_seen
                || keys.mark_older_seen),
            final(self).spec_folded() == if keys.fold_tree && id is Some {
                toggled(old(self).spec_folded(), id->0)
            } else {
                old(self).spec_folded()
            },
            final(self).spec_last_cursor() == old(self).spec_last_cursor(),
            final(self).spec_last_visible_msgs() == old(self).spec_last_visible_msgs(),
            !(keys.fold_tree || keys.toggle_seen || keys.mark_visible_seen || keys.mark_older_seen)
                ==> *final(self) == *old(self),
            r is Ok ==> final(self).spec_store() == marked::<M, S>(*old(self), *keys, id),
    {
        if keys.fold_tree {
            if let Some(id) = id {
                let ghost before = self.folded@;
                if !self.folded.remove(&id) {
                    self.folded.insert(id);
                }
                assert(self.folded@ =~= toggled(before, id));
            }
            return Ok(true);
        }
        if keys.toggle_seen {
            if let Some(id) = id {
                let tree = match self.store.tree(&id) {
                    Ok(t) => t,
                    Err(e) => {
                        return Err(e);
                    },
                };
                if let Some(msg) = tree.msg(&id) {
                    let seen = msg.seen();
                    if let Err(e) = self.store.set_seen(&id, !seen) {
                        return Err(e);
                    }
                }
            }
            return Ok(true);
        }
        if keys.mark_visible_seen {
            let mut i: usize = 0;
            assert(self.last_visible_msgs@.take(0) =~= Seq::<u64>::empty());
            while i < self.last_visible_msgs.len()
                invariant
                    keys.mark_visible_seen,
                    !keys.fold_tree,
                    i <= self.last_visible_msgs@.len(),
                    self.folded@ == old(self).spec_folded(),
                    self.last_cursor == old(self).spec_last_cursor(),
                    self.last_visible_msgs@ == old(self).spec_last_visible_msgs(),
                    !keys.toggle_seen,
                    self.store == seen_all::<M, S>(old(self).spec_store(), self.last_visible_msgs@.take(i as int)),
                decreases self.last_visible_msgs@.len() - i,
            {
                let id = self.last_visible_msgs[i];
                if let Err(e) = self.store.set_seen(&id, true) {
                    return Err(e);
                }
                proof {
                    let t = self.last_visible_msgs@.take(i + 1);
                    assert(t.drop_last() =~= self.last_visible_msgs@.take(i as int));
                }
                i += 1;
            }
            assert(self.last_visible_msgs@.take(i as int) =~= self.last_visible_msgs@);
            return Ok(true);
        }
        if keys.mark_older_seen {
            let older_than = match id {
                Some(id) => id,
                None => M::last_possible_id(),
            };
            if let Err(e) = self.store.set_older_seen(&older_than, true) {
                return Err(e);
            }
            return Ok(true);
        }
        Ok(false)
    }

    /// Reacts to a key that starts composing: a reply (the normal way or the
    /// other way) or a new thread, with the cursor coming from message `id`.
    pub fn handle_edit_initiating_input_event<M: Msg>(&self, keys: &KeyMatches, cursor: &mut Cursor<u64>, id: Option<u64>) -> (r: Result<bool, S::Error>)
        where
            S: MsgStore<M>,
        ensures
            S::spec_never_fails() ==> r is Ok,
            r matches Ok(handled) ==> handled == (keys.reply || keys.reply_alternate || keys.new_thread),
            r is Ok ==> *final(cursor) == initiated::<M, S>(self.spec_store(), *old(cursor), *keys, id),
            r is Err ==> *final(cursor) == *old(cursor),
    {
        if keys.reply {
            match cursor.parent_for_normal_tree_reply(&self.store) {
                Err(e) => {
                    return Err(e);
                },
                Ok(Some(parent)) => {
                    *cursor = Cursor::Editor { coming_from: id, parent };
                },
                Ok(None) => {},
            }
            return Ok(true);
        }
        if keys.reply_alternate {
            match cursor.parent_for_alternate_tree_reply(&self.store) {
                Err(e) => {
                    return Err(e);
                },
                Ok(Some(parent)) => {
                    *cursor = Cursor::Editor { coming_from: id, parent };
                },
                Ok(None) => {},
            }
            return Ok(true);
        }
        if keys.new_thread {
            *cursor = Cursor::Editor { coming_from: id, parent: None };
            return Ok(true);
        }
        Ok(false)
    }

    /// Reacts to a key while the cursor is on message `id` or at the bottom:
    /// movements first, then actions, then (where composing is possible)
    /// the keys that start composing.
    pub fn handle_normal_input_event<M: Msg>(
        &mut self,
        keys: &KeyMatches,
        frame_height: u16,
        cursor: &mut Cursor<u64>,
        can_compose: bool,
        id: Option<u64>,
    ) -> (r: Result<TreeReaction, S::Error>)
        where
            S: MsgStore<M>,
        requires
            frame_height >= 3,
        ensures
            S::spec_never_fails() ==> r is Ok,
            final(self).spec_last_cursor() == old(self).spec_last_cursor(),
            r matches Ok(reaction) ==> normal_reaction::<M, S>(
                *old(self),
                *final(self),
                *keys,
                frame_height,
                *old(cursor),
                *final(cursor),
                can_compose,
                id,
                reaction,
            ),
    {
        match self.handle_movement_input_event(keys, frame_height, cursor) {
            Err(e) => {
                return Err(e);
            },
            Ok(TreeReaction::NotHandled) => {},
            Ok(reaction) => {
                return Ok(reaction);
            },
        }
        match self.handle_action_input_event(keys, id) {
            Err(e) => {
                return Err(e);
            },
            Ok(true) => {
                return Ok(TreeReaction::Handled);
            },
            Ok(false) => {},
        }
        if can_compose {
            match self.handle_edit_initiating_input_event(keys, cursor, id) {
                Err(e) => {
                    return Err(e);
                },
                Ok(true) => {
                    return Ok(TreeReaction::Handled);
                },
                Ok(false) => {},
            }
        }
        Ok(TreeReaction::NotHandled)
    }
}

/// How the editor reacts to a key: aborting leaves it for the message it
/// was opened on (or the bottom), confirming sends the text (unless it is
/// only whitespace) and waits below `parent`, and other keys are for the
/// text box.
pub open spec fn editor_reaction(
    keys: KeyMatches,
    old_cursor: Cursor<u64>,
    new_cursor: Cursor<u64>,
    text: Seq<char>,
    coming_from: Option<u64>,
    parent: Option<u64>,
    r: TreeReaction,
) -> bool {
    if keys.abort {
        r is Handled && new_cursor == match coming_from {
            Some(id) => Cursor::Msg(id),
            None => Cursor::Bottom,
        }
    } else if keys.confirm {
        if spec_trim(text).len() == 0 {
            r is Handled && new_cursor == old_cursor
        } else {
            new_cursor == (Cursor::Pseudo { coming_from, parent }) && (r matches TreeReaction::Composed {
                parent: p,
                content,
            } && p == parent && content@ == text)
        }
    } else {
        r is ToEditor && new_cursor == old_cursor
    }
}

/// Reacts to a key while composing a reply to `parent`, having come from
/// message `coming_from`; `text` is what the editor holds. Aborting goes
/// back; confirming sends the text unless it is blank; other keys are for
/// the editor.
pub fn handle_editor_input_event(
    keys: &KeyMatches,
    cursor: &mut Cursor<u64>,
    text: &str,
    coming_from: Option<u64>,
    parent: Option<u64>,
) -> (r: TreeReaction)
    ensures
        editor_reaction(*keys, *old(cursor), *final(cursor), text@, coming_from, parent, r),
{
    if keys.abort {
        *cursor = match coming_from {
            Some(id) => Cursor::Msg(id),
            None => Cursor::Bottom,
        };
        return TreeReaction::Handled;
    }
    if keys.confirm {
        if trim(text).unicode_len() == 0 {
            return TreeReaction::Handled;
        }
        *cursor = Cursor::Pseudo { coming_from, parent };
        return TreeReaction::Composed { parent, content: String::from_str(text) };
    }
    TreeReaction::ToEditor
}

impl<S> TreeViewState<S> {
    /// Reacts to an input event according to where the cursor is: on a
    /// message or at the bottom all keys count, in the editor the editing
    /// keys, on a pending message only movements. `text` is what the editor
    /// holds; `frame_height` is the height of the chat's frame.
    pub fn handle_input_event<M: Msg>(
        &mut self,
        keys: &KeyMatches,
        frame_height: u16,
        cursor: &mut Cursor<u64>,
        text: &str,
        can_compose: bool,
    ) -> (r: Result<TreeReaction, S::Error>)
        where
            S: MsgStore<M>,
        requires
            frame_height >= 3,
        ensures
            S::spec_never_fails() ==> r is Ok,
            final(self).spec_last_cursor() == old(self).spec_last_cursor(),
            r matches Ok(reaction) ==> input_reaction::<M, S>(
                *old(self),
                *final(self),
                *keys,
                frame_height,
                *old(cursor),
                *final(cursor),
                text@,
                can_compose,
                reaction,
            ),
    {
        match *cursor {
            Cursor::Bottom => self.handle_normal_input_event(keys, frame_height, cursor, can_compose, None),
            Cursor::Msg(id) => self.handle_normal_input_event(keys, frame_height, cursor, can_compose, Some(id)),
            Cursor::Editor { coming_from, parent } => Ok(handle_editor_input_event(keys, cursor, text, coming_from, parent)),
            Cursor::Pseudo { .. } => self.handle_movement_input_event(keys, frame_height, cursor),
        }
    }
}

impl<S> TreeViewState<S> {
    /// The line the cursor's block started at when the view was last drawn.
    pub closed spec fn spec_last_cursor_top(&self) -> i32 {
        self.last_cursor_top
    }

    /// What a renderer knows of the view as it was last drawn, for a focused
    /// screen of `height` lines.
    pub fn last_context(&self, height: u16) -> (r: TreeContext)
        ensures
            r == (TreeContext {
                height,
                focused: true,
                last_cursor: self.spec_last_cursor(),
                last_cursor_top: self.spec_last_cursor_top(),
            }),
    {
        TreeContext { height, focused: true, last_cursor: self.last_cursor, last_cursor_top: self.last_cursor_top }
    }

    /// Draws the view on a screen of `height` lines, remembers what was
    /// drawn, and gives the blocks that are visible, each with the lines it
    /// takes up. The messages above the cursor's are unfolded.
    pub fn draw<M: Msg, W, P: Predraw<M, W>>(
        &mut self,
        cursor: &Cursor<u64>,
        painter: &mut P,
        height: u16,
        nick: String,
        focused: bool,
    ) -> (r: Result<Vec<(Range<i32>, Block<TreeBlockId<u64>, W>)>, S::Error>)
        where
            S: MsgStore<M>,
        requires
            -MAX_OFFSET <= old(self).spec_last_cursor_top() <= MAX_OFFSET,
        ensures
            S::spec_never_fails() ==> r is Ok,
            final(self).spec_store() == old(self).spec_store(),
            -MAX_OFFSET <= final(self).spec_last_cursor_top() <= MAX_OFFSET,
            r is Ok ==> final(self).spec_last_cursor() == *cursor,
            r is Ok ==> final(self).spec_folded() == old(self).spec_folded().difference(
                cursor_ancestors(old(self).spec_store(), *cursor),
            ),
    {
        let context = TreeContext {
            height,
            focused,
            last_cursor: self.last_cursor,
            last_cursor_top: self.last_cursor_top,
        };
        let mut renderer = TreeRenderer::new(context);
        renderer.prepare_blocks_for_drawing(&self.store, &mut self.folded, cursor, painter)?;
        let (last_cursor, top, visible) = renderer.update_render_info(cursor);
        self.last_nick = nick;
        self.last_cursor = last_cursor;
        self.last_cursor_top = top;
        self.last_visible_msgs = visible;
        Ok(renderer.into_visible_blocks())
    }

    /// Scrolls the view as it was last drawn on a screen of `height` lines
    /// by `delta` lines (up where positive), moving the cursor along where
    /// it would leave the screen, and remembers the result.
    pub fn scroll_by<M: Msg, W, P: Predraw<M, W>>(
        &mut self,
        cursor: &mut Cursor<u64>,
        painter: &mut P,
        height: u16,
        delta: i32,
    ) -> (r: Result<(), S::Error>)
        where
            S: MsgStore<M>,
        requires
            -MAX_OFFSET <= old(self).spec_last_cursor_top() <= MAX_OFFSET,
            -MAX_OFFSET <= delta <= MAX_OFFSET,
        ensures
            S::spec_never_fails() ==> r is Ok,
            final(self).spec_store() == old(self).spec_store(),
            -MAX_OFFSET <= final(self).spec_last_cursor_top() <= MAX_OFFSET,
            r is Ok ==> final(self).spec_last_cursor() == *final(cursor),
            r is Ok ==> final(self).spec_folded() == old(self).spec_folded().difference(
                cursor_ancestors(old(self).spec_store(), *old(cursor)),
            ),
            *final(cursor) == *old(cursor) || (cursor_on(spec_block_id(*old(cursor))) is Some && cursor_on(
                spec_block_id(*final(cursor)),
            ) == Some(*final(cursor))),
    {
        let context = self.last_context(height);
        let mut renderer = TreeRenderer::new(context);
        renderer.prepare_blocks_for_drawing(&self.store, &mut self.folded, cursor, painter)?;
        renderer.scroll_by(delta, &self.store, &self.folded, cursor, painter)?;
        let (last_cursor, top, visible) = renderer.update_render_info(cursor);
        self.last_cursor = last_cursor;
        self.last_cursor_top = top;
        self.last_visible_msgs = visible;
        Ok(())
    }

    /// Scrolls the view as it was last drawn on a screen of `height` lines
    /// so that the cursor is in the middle, and remembers the result.
    pub fn center_cursor<M: Msg, W, P: Predraw<M, W>>(
        &mut self,
        cursor: &Cursor<u64>,
        painter: &mut P,
        height: u16,
    ) -> (r: Result<(), S::Error>)
        where
            S: MsgStore<M>,
        requires
            -MAX_OFFSET <= old(self).spec_last_cursor_top() <= MAX_OFFSET,
        ensures
            S::spec_never_fails() ==> r is Ok,
            final(self).spec_store() == old(self).spec_store(),
            -MAX_OFFSET <= final(self).spec_last_cursor_top() <= MAX_OFFSET,
            r is Ok ==> final(self).spec_last_cursor() == *cursor,
            r is Ok ==> final(self).spec_folded() == old(self).spec_folded().difference(
                cursor_ancestors(old(self).spec_store(), *cursor),
            ),
    {
        let context = self.last_context(height);
        let mut renderer = TreeRenderer::new(context);
        renderer.prepare_blocks_for_drawing(&self.store, &mut self.folded, cursor, painter)?;
        renderer.center_cursor(cursor);
        let (last_cursor, top, visible) = renderer.update_render_info(cursor);
        self.last_cursor = last_cursor;
        self.last_cursor_top = top;
        self.last_visible_msgs = visible;
        Ok(())
    }
}

} // verus!
