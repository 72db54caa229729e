//! The key bindings an input event matches.

use vstd::prelude::*;

verus! {

/// Which key bindings an input event matches.
#[derive(Debug, Clone, Copy, Default)]
pub struct KeyMatches {
    pub cursor_up: bool,
    pub cursor_down: bool,
    pub cursor_to_top: bool,
    pub cursor_to_bottom: bool,
    pub to_above_sibling: bool,
    pub to_below_sibling: bool,
    pub to_parent: bool,
    pub to_root: bool,
    pub to_older_message: bool,
    pub to_newer_message: bool,
    pub to_older_unseen_message: bool,
    pub to_newer_unseen_message: bool,
    pub scroll_up_line: bool,
    pub scroll_down_line: bool,
    pub scroll_up_half: bool,
    pub scroll_down_half: bool,
    pub scroll_up_full: bool,
    pub scroll_down_full: bool,
    pub scroll_center_cursor: bool,
    pub fold_tree: bool,
    pub toggle_seen: bool,
    pub mark_visible_seen: bool,
    pub mark_older_seen: bool,
    pub reply: bool,
    pub reply_alternate: bool,
    pub new_thread: bool,
    pub abort: bool,
    pub confirm: bool,
    pub focus: bool,
    pub exit: bool,
    pub help: bool,
    pub log: bool,
    pub room_authenticate: bool,
    pub room_nick: bool,
    pub room_more_messages: bool,
    pub room_account: bool,
    pub inspect: bool,
    pub links: bool,
    pub toggle_nick_emoji: bool,
    pub increase_caesar: bool,
    pub decrease_caesar: bool,
    pub rooms_connect: bool,
    pub rooms_connect_all: bool,
    pub rooms_disconnect: bool,
    pub rooms_disconnect_all: bool,
    pub rooms_connect_autojoin: bool,
    pub rooms_disconnect_non_autojoin: bool,
    pub rooms_new: bool,
    pub rooms_delete: bool,
    pub rooms_change_sort_order: bool,
}

} // verus!
