//! Overlays for joining and switching rooms, each with a one-line text box.

use vstd::prelude::*;

use crate::text::{spec_trim, trim};
use crate::textline::{key_effect, EventHandler, KeyCode, TextLineReaction, TextLineState};

verus! {

/// A room to switch to.
#[derive(Debug, Clone, PartialEq, Eq)]
pub enum RoomId {
    Cove(String),
}

/// How an overlay reacted to a key press.
#[derive(Debug)]
pub enum OverlayReaction {
    Handled,
    Close,
    JoinRoom(String),
    SwitchRoom(RoomId),
}

/// The overlays that can be shown above the rooms.
pub enum Overlay {
    SwitchRoom(SwitchRoomState),
}

/// The overlay reaction for a text box reaction.
pub open spec fn from_text_reaction(r: Option<TextLineReaction>) -> Option<OverlayReaction> {
    match r {
        Some(TextLineReaction::Handled) => Some(OverlayReaction::Handled),
        Some(TextLineReaction::Close) => Some(OverlayReaction::Close),
        None => None,
    }
}

fn map_reaction(r: Option<TextLineReaction>) -> (o: Option<OverlayReaction>)
    ensures
        o == from_text_reaction(r),
{
    match r {
        Some(TextLineReaction::Handled) => Some(OverlayReaction::Handled),
        Some(TextLineReaction::Close) => Some(OverlayReaction::Close),
        None => None,
    }
}

/// The "Join room" overlay.
pub struct JoinRoom;

/// State of the "Join room" overlay: the room name typed so far.
pub struct JoinRoomState {
    room: TextLineState,
}

impl JoinRoomState {
    /// The text box with the room name.
    pub closed spec fn spec_room(&self) -> TextLineState {
        self.room
    }

    pub fn new() -> (r: Self)
        ensures
            r.spec_room().spec_content() == Seq::<char>::empty(),
            r.spec_room().spec_cursor() == 0,
    {
        Self { room: TextLineState::default() }
    }

    pub fn room(&self) -> (r: &TextLineState)
        ensures
            *r == self.spec_room(),
    {
        &self.room
    }

    pub fn last_cursor_pos(&self) -> (r: (u16, u16))
        ensures
            r == self.spec_room().spec_last_cursor_pos(),
    {
        self.room.last_cursor_pos()
    }
}

impl EventHandler for JoinRoomState {
    type Reaction = OverlayReaction;

    /// Enter joins the typed room; other keys edit the room name.
    fn handle_key(&mut self, code: KeyCode) -> (r: Option<OverlayReaction>)
        ensures
            code == KeyCode::Enter ==> *final(self) == *old(self) && (r matches Some(
                OverlayReaction::JoinRoom(name),
            ) && name@ == old(self).spec_room().spec_content()),
            code != KeyCode::Enter ==> {
                let (c, k, t) = key_effect(
                    old(self).spec_room().spec_content(),
                    old(self).spec_room().spec_cursor(),
                    code,
                );
                &&& final(self).spec_room().spec_content() == c
                &&& final(self).spec_room().spec_cursor() == k
                &&& r == from_text_reaction(t)
            },
    {
        if code == KeyCode::Enter {
            return Some(OverlayReaction::JoinRoom(self.room.content()));
        }
        let r = self.room.handle_key(code);
        map_reaction(r)
    }
}

/// The "Switch room" overlay.
pub struct SwitchRoom;

/// State of the "Switch room" overlay: the room name typed so far.
pub struct SwitchRoomState {
    room: TextLineState,
}

impl SwitchRoomState {
    /// The text box with the room name.
    pub closed spec fn spec_room(&self) -> TextLineState {
        self.room
    }

    pub fn new() -> (r: Self)
        ensures
            r.spec_room().spec_content() == Seq::<char>::empty(),
            r.spec_room().spec_cursor() == 0,
    {
        Self { room: TextLineState::default() }
    }

    pub fn room(&self) -> (r: &TextLineState)
        ensures
            *r == self.spec_room(),
    {
        &self.room
    }

    pub fn last_cursor_pos(&self) -> (r: (u16, u16))
        ensures
            r == self.spec_room().spec_last_cursor_pos(),
    {
        self.room.last_cursor_pos()
    }
}

impl EventHandler for SwitchRoomState {
    type Reaction = OverlayReaction;

    /// Enter switches to the typed room (ignoring surrounding whitespace, and
    /// doing nothing for a blank name); other keys edit the room name.
    fn handle_key(&mut self, code: KeyCode) -> (r: Option<OverlayReaction>)
        ensures
            code == KeyCode::Enter ==> *final(self) == *old(self) && ({
                let name = spec_trim(old(self).spec_room().spec_content());
                if name.len() == 0 {
                    r matches Some(OverlayReaction::Handled)
                } else {
                    (r matches Some(OverlayReaction::SwitchRoom(RoomId::Cove(n))) && n@ == name)
                }
            }),
            code != KeyCode::Enter ==> {
                let (c, k, t) = key_effect(
                    old(self).spec_room().spec_content(),
                    old(self).spec_room().spec_cursor(),
                    code,
                );
                &&& final(self).spec_room().spec_content() == c
                &&& final(self).spec_room().spec_cursor() == k
                &&& r == from_text_reaction(t)
            },
    {
        if code == KeyCode::Enter {
            let content = self.room.content();
            let name = trim(content.as_str());
            if name.is_empty() {
                return Some(OverlayReaction::Handled);
            }
            let id = RoomId::Cove(name.to_owned());
            return Some(OverlayReaction::SwitchRoom(id));
        }
        let r = self.room.handle_key(code);
        map_reaction(r)
    }
}

} // verus!
