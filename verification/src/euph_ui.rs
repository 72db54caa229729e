//! A euphoria room on screen: its chat, its nick list and its popups, and
//! how it reacts to input and to what the server says.

use vstd::prelude::*;
use vstd::string::StringExecFns;
use vstd::std_specs::cmp::PartialEqSpecImpl;

use crate::account::{account_reaction, AccountAction, AccountUiState, Focus as AccountFocus};
use crate::chat::{chat_input, chat_reaction, ChatState, Reaction};
use crate::emoji::Emoji;
use crate::keys::KeyMatches;
use crate::links::{links_built, links_reaction, LinksAction, LinksState};
use crate::list::{handle_list_input_event, is_list_key, list_key_effect, row_selected, ListBuilder, ListState};
use crate::nick_list::NickRow;
use crate::popup::RoomPopup;
use crate::rooms::Tone;
use crate::store::{Msg, MsgStore};
use crate::text::{decimal, spec_decimal};
use crate::cursor::Cursor;
use crate::tree_view::TreeReaction;

verus! {

/// The kind of a session, as its user id says.
#[derive(Debug, Clone, Copy, PartialEq, Eq, Structural)]
pub enum SessionType {
    Agent,
    Account,
    Bot,
}

/// A session in a room, as far as the nick list shows it.
#[derive(Debug)]
pub struct NickSession {
    pub name: String,
    pub id: String,
    pub session_id: String,
    pub is_staff: bool,
    pub is_manager: bool,
    pub session_type: Option<SessionType>,
}

/// What is known of a joined room: one's own session, the others, and the
/// email address of the account one is logged in with.
#[derive(Debug)]
pub struct Joined {
    pub own: NickSession,
    pub listing: Vec<NickSession>,
    pub account: Option<String>,
}

/// The connection to the room as the screen shows it.
#[derive(Debug)]
pub enum RoomView {
    /// Not connected.
    NoRoom,
    Stopped,
    Disconnected,
    Connecting,
    Joining { bounce: bool },
    Joined(Joined),
}

/// What has the focus: the chat or the nick list.
#[derive(Debug, Clone, Copy, PartialEq, Eq, Structural)]
pub enum Focus {
    Chat,
    NickList,
}

/// What is shown above the chat.
pub enum UiState {
    Normal,
    /// Entering the room's password.
    Auth,
    /// Choosing a nick.
    Nick,
    Account(AccountUiState),
    Links(LinksState),
    InspectMessage(u64),
    InspectSession(String),
}

/// What became of a message that was sent.
#[derive(Debug, Clone, Copy, PartialEq, Eq, Structural)]
pub enum SendOutcome {
    Waiting,
    Sent(u64),
    Failed,
}

/// What the caller is to do after a key in a room.
pub enum RoomAction {
    NotHandled,
    Handled,
    /// Scroll the chat by this many lines.
    ScrollChat(i32),
    CenterChat,
    /// The key is for the chat's editor; where the editor does not handle
    /// it, call [`EuphRoom::after_chat_editor`].
    ChatEditor,
    /// Send the composed message; then report whether that worked.
    Send { parent: Option<u64>, content: String },
    /// Ask the server for older messages.
    RequestMoreLogs,
    /// Load message `id` in full; then call [`EuphRoom::inspect_message`].
    LoadMessageToInspect(u64),
    /// Load message `id`; then call [`EuphRoom::show_links`] with its text.
    LoadMessageForLinks(u64),
    /// The key is for the text box of the popup (password, nick, or the
    /// account form's email or password box).
    PopupEditor,
    /// Authenticate with the entered password.
    Authenticate,
    /// Change to the entered nick.
    ChangeNick,
    /// Log in with this email address and password.
    Login { email: String, password: String },
    Logout,
    /// Open the URL; report a failure with [`EuphRoom::link_error`].
    OpenUrl(String),
    SwitchToRoom(String),
}

/// What the server replied, as far as the room's screen cares.
pub enum ServerData {
    PingEvent,
    PingReply,
    DisconnectEvent,
    AuthReply { success: bool, reason: Option<String> },
    LoginReply { success: bool, reason: Option<String> },
    Other,
}

/// The replies whose failure the room reports.
#[derive(Debug, Clone, Copy, PartialEq, Eq, Structural)]
pub enum ReplyType {
    Auth,
    Nick,
    PmInitiate,
    Send,
    ChangeEmail,
    ChangeName,
    ChangePassword,
    Login,
    Logout,
    RegisterAccount,
    ResendVerificationEmail,
    ResetPassword,
    Ban,
    EditMessage,
    GrantAccess,
    GrantManager,
    RevokeAccess,
    RevokeManager,
    Unban,
    Other,
}

/// What failed when a reply of type `t` reports an error.
pub open spec fn failed_action_text(t: ReplyType) -> Option<Seq<char>> {
    match t {
        ReplyType::Auth => Some("authenticate"@),
        ReplyType::Nick => Some("set nick"@),
        ReplyType::PmInitiate => Some("initiate pm"@),
        ReplyType::Send => Some("send message"@),
        ReplyType::ChangeEmail => Some("change account email"@),
        ReplyType::ChangeName => Some("change account name"@),
        ReplyType::ChangePassword => Some("change account password"@),
        ReplyType::Login => Some("log in"@),
        ReplyType::Logout => Some("log out"@),
        ReplyType::RegisterAccount => Some("register account"@),
        ReplyType::ResendVerificationEmail => Some("resend verification email"@),
        ReplyType::ResetPassword => Some("reset account password"@),
        ReplyType::Ban => Some("ban"@),
        ReplyType::EditMessage => Some("edit message"@),
        ReplyType::GrantAccess => Some("grant room access"@),
        ReplyType::GrantManager => Some("grant manager permissions"@),
        ReplyType::RevokeAccess => Some("revoke room access"@),
        ReplyType::RevokeManager => Some("revoke manager permissions"@),
        ReplyType::Unban => Some("unban"@),
        ReplyType::Other => None,
    }
}

pub fn failed_action(t: ReplyType) -> (r: Option<&'static str>)
    ensures
        match r {
            Some(a) => failed_action_text(t) == Some(a@),
            None => failed_action_text(t) is None,
        },
{
    match t {
        ReplyType::Auth => Some("authenticate"),
        ReplyType::Nick => Some("set nick"),
        ReplyType::PmInitiate => Some("initiate pm"),
        ReplyType::Send => Some("send message"),
        ReplyType::ChangeEmail => Some("change account email"),
        ReplyType::ChangeName => Some("change account name"),
        ReplyType::ChangePassword => Some("change account password"),
        ReplyType::Login => Some("log in"),
        ReplyType::Logout => Some("log out"),
        ReplyType::RegisterAccount => Some("register account"),
        ReplyType::ResendVerificationEmail => Some("resend verification email"),
        ReplyType::ResetPassword => Some("reset account password"),
        ReplyType::Ban => Some("ban"),
        ReplyType::EditMessage => Some("edit message"),
        ReplyType::GrantAccess => Some("grant room access"),
        ReplyType::GrantManager => Some("grant manager permissions"),
        ReplyType::RevokeAccess => Some("revoke room access"),
        ReplyType::RevokeManager => Some("revoke manager permissions"),
        ReplyType::Unban => Some("unban"),
        ReplyType::Other => None,
    }
}

/// `Failed to <action>.`
pub open spec fn failure_text(action: Seq<char>) -> Seq<char> {
    "Failed to "@ + action + "."@
}

fn failure_description(action: &str) -> (r: String)
    ensures
        r@ == failure_text(action@),
{
    let mut s = String::from_str("Failed to ");
    s.append(action);
    s.append(".");
    s
}

/// Whether a room is joined.
pub open spec fn is_joined(view: &RoomView) -> bool {
    view matches RoomView::Joined(_)
}

/// The room's status line: its domain, its name, its connection, and its
/// unseen messages in parentheses; and the title of its frame, `&name` with
/// the unseen messages.
pub fn status_info(domain: &str, name: &str, view: &RoomView, unseen: usize) -> (r: (Vec<(String, Tone)>, String))
    ensures
        r.0@.len() >= 3,
        r.0@[0].0@ == domain@ + " "@ && r.0@[0].1 == Tone::Domain,
        r.0@[1].0@ == "&"@ + name@ && r.0@[1].1 == Tone::Room,
        r.0@[2].0@ == match view {
            RoomView::NoRoom | RoomView::Stopped => ", archive"@,
            RoomView::Disconnected => ", waiting..."@,
            RoomView::Connecting => ", connecting..."@,
            RoomView::Joining { bounce } => if *bounce {
                ", auth required"@
            } else {
                ", joining..."@
            },
            RoomView::Joined(j) => if j.own.name@.len() == 0 {
                ", present without nick"@
            } else {
                ", present as "@
            },
        },
        r.0@.len() == 3 + (if view matches RoomView::Joined(j) && j.own.name@.len() > 0 { 1int } else { 0 }) + (if unseen > 0 { 3int } else { 0 }),
        (view matches RoomView::Joined(j) && j.own.name@.len() > 0) ==> (view matches RoomView::Joined(j) && r.0@[3].0@ == j.own.name@ && r.0@[3].1 == Tone::Nick),
        unseen > 0 ==> r.0@[r.0@.len() - 2].0@ == spec_decimal(unseen as nat) && r.0@[r.0@.len() - 2].1 == Tone::Unseen,
        r.1@ == if unseen > 0 {
            "&"@ + name@ + " ("@ + spec_decimal(unseen as nat) + ")"@
        } else {
            "&"@ + name@
        },
{
    let mut info: Vec<(String, Tone)> = Vec::new();
    let mut d = String::from_str(domain);
    d.append(" ");
    info.push((d, Tone::Domain));
    let mut room = String::from_str("&");
    room.append(name);
    info.push((room, Tone::Room));
    match view {
        RoomView::NoRoom | RoomView::Stopped => info.push((String::from_str(", archive"), Tone::Plain)),
        RoomView::Disconnected => info.push((String::from_str(", waiting..."), Tone::Plain)),
        RoomView::Connecting => info.push((String::from_str(", connecting..."), Tone::Plain)),
        RoomView::Joining { bounce } => if *bounce {
            info.push((String::from_str(", auth required"), Tone::Plain));
        } else {
            info.push((String::from_str(", joining..."), Tone::Plain));
        },
        RoomView::Joined(j) => if j.own.name.as_str().is_empty() {
            info.push((String::from_str(", present without nick"), Tone::Plain));
        } else {
            info.push((String::from_str(", present as "), Tone::Plain));
            info.push((j.own.name.clone(), Tone::Nick));
        },
    }
    let mut title = String::from_str("&");
    title.append(name);
    if unseen > 0 {
        info.push((String::from_str(" ("), Tone::Plain));
        info.push((decimal(unseen), Tone::Unseen));
        info.push((String::from_str(")"), Tone::Plain));
        title.append(" (");
        title.append(decimal(unseen).as_str());
        title.append(")");
    }
    (info, title)
}

/// Whether `session_id` is one's own session or one of the listed ones.
pub open spec fn spec_session_in(joined: &Joined, session_id: Seq<char>) -> bool {
    joined.own.session_id@ == session_id || exists|i: int|
        0 <= i < joined.listing@.len() && #[trigger] joined.listing@[i].session_id@ == session_id
}

fn session_in(joined: &Joined, session_id: &str) -> (r: bool)
    ensures
        r == spec_session_in(joined, session_id@),
{
    let wanted = String::from_str(session_id);
    if joined.own.session_id == wanted {
        return true;
    }
    let mut i: usize = 0;
    while i < joined.listing.len()
        invariant
            i <= joined.listing@.len(),
            wanted@ == session_id@,
            joined.own.session_id@ != session_id@,
            forall|j: int| 0 <= j < i ==> #[trigger] joined.listing@[j].session_id@ != session_id@,
        decreases joined.listing@.len() - i,
    {
        if joined.listing[i].session_id == wanted {
            return true;
        }
        i += 1;
    }
    false
}

/// A euphoria room's screen.
pub struct EuphRoom<S> {
    focus: Focus,
    state: UiState,
    /// Error popups, the newest first.
    popups: Vec<RoomPopup>,
    chat: ChatState<S>,
    /// Whether a sent message waits for the server's answer.
    sending: bool,
    nick_list: ListState<SessionId>,
}

/// Everything of the room's screen but the chat stays as it was.
pub open spec fn same_screen<S>(old: EuphRoom<S>, new: EuphRoom<S>) -> bool {
    &&& new.spec_focus() == old.spec_focus()
    &&& new.spec_state() == old.spec_state()
    &&& new.spec_popups() == old.spec_popups()
    &&& new.spec_sending() == old.spec_sending()
    &&& new.spec_nick_list() == old.spec_nick_list()
}

/// Only the popup state changes to `state`.
pub open spec fn state_becomes<S>(old: EuphRoom<S>, new: EuphRoom<S>, state: UiState) -> bool {
    &&& new.spec_focus() == old.spec_focus()
    &&& new.spec_state() == state
    &&& new.spec_popups() == old.spec_popups()
    &&& new.spec_sending() == old.spec_sending()
    &&& new.spec_nick_list() == old.spec_nick_list()
}

/// Whether one of the room's own keys applies in the room's state: the key
/// to authenticate while a password is asked for, and while joined the keys
/// to change the nick, to load older messages and to manage the account.
pub open spec fn room_key_applies(keys: KeyMatches, view: RoomView) -> bool {
    ||| (view matches RoomView::Joining { bounce: true }) && keys.room_authenticate
    ||| view is Joined && (keys.room_nick || keys.room_more_messages || keys.room_account)
}

/// How the room's own keys act (the chat is not touched): asking for the
/// password, the nick or the account popup, or for older messages.
pub open spec fn room_keys_reaction<S>(old: EuphRoom<S>, new: EuphRoom<S>, keys: KeyMatches, view: RoomView, r: RoomAction) -> bool {
    if (view matches RoomView::Joining { bounce: true }) && keys.room_authenticate {
        r is Handled && state_becomes(old, new, UiState::Auth)
    } else if view is Joined && keys.room_nick {
        r is Handled && state_becomes(old, new, UiState::Nick)
    } else if view is Joined && keys.room_more_messages {
        r is RequestMoreLogs && same_screen(old, new)
    } else if view is Joined && keys.room_account {
        r is Handled && (new.spec_state() matches UiState::Account(a) && (a matches AccountUiState::LoggedOut(l)
            && l.focus == AccountFocus::Email)) && new.spec_focus() == old.spec_focus() && new.spec_popups()
            == old.spec_popups() && new.spec_sending() == old.spec_sending() && new.spec_nick_list()
            == old.spec_nick_list()
    } else {
        r is NotHandled && same_screen(old, new)
    }
}

/// How the keys the chat left act, with the chat's cursor at `cursor`: the
/// room's own keys, then inspecting the message under the cursor or its
/// links, then the focus key, which moves to the nick list in a joined
/// room.
pub open spec fn chat_focus_rest<S>(cursor: Cursor<u64>, old: EuphRoom<S>, new: EuphRoom<S>, keys: KeyMatches, view: RoomView, r: RoomAction) -> bool {
    if room_key_applies(keys, view) {
        room_keys_reaction(old, new, keys, view, r)
    } else if keys.inspect {
        same_screen(old, new) && r == match cursor {
            Cursor::Msg(id) => RoomAction::LoadMessageToInspect(id),
            _ => RoomAction::Handled,
        }
    } else if keys.links {
        same_screen(old, new) && r == match cursor {
            Cursor::Msg(id) => RoomAction::LoadMessageForLinks(id),
            _ => RoomAction::Handled,
        }
    } else if view is Joined && keys.focus {
        &&& r is Handled
        &&& new.spec_focus() == Focus::NickList
        &&& new.spec_state() == old.spec_state()
        &&& new.spec_popups() == old.spec_popups()
        &&& new.spec_sending() == old.spec_sending()
        &&& new.spec_nick_list() == old.spec_nick_list()
    } else {
        r is NotHandled && same_screen(old, new)
    }
}

/// What the room does with the chat's reaction `t`: scrolling, centering
/// and editing are passed on, a composed message is sent where there is a
/// room, and keys the chat left (and a message composed without a room) go
/// to [`chat_focus_rest`].
pub open spec fn chat_action<S>(old: EuphRoom<S>, new: EuphRoom<S>, keys: KeyMatches, view: RoomView, has_room: bool, t: TreeReaction, r: RoomAction) -> bool {
    match t {
        TreeReaction::NotHandled => chat_focus_rest(new.spec_chat().spec_cursor(), old, new, keys, view, r),
        TreeReaction::Handled => r is Handled && same_screen(old, new),
        TreeReaction::ScrollBy(d) => r == RoomAction::ScrollChat(d) && same_screen(old, new),
        TreeReaction::CenterCursor => r is CenterChat && same_screen(old, new),
        TreeReaction::ToEditor => r is ChatEditor && same_screen(old, new),
        TreeReaction::Composed { parent, content } => if has_room {
            (r matches RoomAction::Send { parent: p, content: c } && p == parent && c@ == content@) && same_screen(old, new)
        } else {
            chat_focus_rest(new.spec_chat().spec_cursor(), old, new, keys, view, r)
        },
    }
}

/// What the account popup's action means for the room.
pub open spec fn account_room_action(a: AccountAction) -> RoomAction {
    match a {
        AccountAction::Close => RoomAction::Handled,
        AccountAction::Handled => RoomAction::Handled,
        AccountAction::NotHandled => RoomAction::NotHandled,
        AccountAction::Login { email, password } => RoomAction::Login { email, password },
        AccountAction::Logout => RoomAction::Logout,
        AccountAction::ToEditor(_) => RoomAction::PopupEditor,
    }
}

/// What the links popup's action means for the room.
pub open spec fn links_room_action(a: LinksAction) -> RoomAction {
    match a {
        LinksAction::Close => RoomAction::Handled,
        LinksAction::Handled => RoomAction::Handled,
        LinksAction::NotHandled => RoomAction::NotHandled,
        LinksAction::OpenUrl(u) => RoomAction::OpenUrl(u),
        LinksAction::SwitchToRoom(n) => RoomAction::SwitchToRoom(n),
    }
}

/// How the nick list reacts to a key: aborting or the focus key go back to
/// the chat, list keys move in the list, and inspecting shows the selected
/// session where it is in the room.
pub open spec fn nick_list_reaction<S>(old: EuphRoom<S>, new: EuphRoom<S>, keys: KeyMatches, view: RoomView, r: RoomAction) -> bool {
    &&& new.spec_popups() == old.spec_popups()
    &&& new.spec_sending() == old.spec_sending()
    &&& if keys.abort || keys.focus {
        r is Handled && new.spec_focus() == Focus::Chat && new.spec_state() == old.spec_state()
            && new.spec_nick_list() == old.spec_nick_list()
    } else if is_list_key(keys) {
        r is Handled && new.spec_focus() == old.spec_focus() && new.spec_state() == old.spec_state()
            && list_key_effect(keys, old.spec_nick_list(), new.spec_nick_list())
    } else if keys.inspect {
        &&& r is Handled
        &&& new.spec_focus() == old.spec_focus()
        &&& new.spec_nick_list() == old.spec_nick_list()
        &&& new.spec_state() == match (view, old.spec_nick_list().spec_cursor_id()) {
            (RoomView::Joined(joined), Some(id)) => if spec_session_in(&joined, id.0@) {
                UiState::InspectSession(id.0)
            } else {
                old.spec_state()
            },
            _ => old.spec_state(),
        }
    } else {
        r is NotHandled && same_screen(old, new)
    }
}

/// The rows of the nick list: a session's id for each session, nothing for
/// the other rows.
pub open spec fn nick_list_ids(rows: Seq<NickRow>) -> Seq<Option<SessionId>> {
    rows.map_values(
        |r: NickRow|
            match r {
                NickRow::Session { session_id, .. } => Some(SessionId(session_id)),
                _ => None,
            },
    )
}

/// The id of a session, by which the nick list knows its rows.
#[derive(Debug)]
pub struct SessionId(pub String);

impl Clone for SessionId {
    fn clone(&self) -> (r: Self)
        ensures
            r == *self,
    {
        SessionId(self.0.clone())
    }
}

/// Two session ids are the same when their texts are.
impl PartialEq for SessionId {
    fn eq(&self, other: &Self) -> (r: bool) {
        self.0 == other.0
    }
}

impl PartialEqSpecImpl for SessionId {
    open spec fn obeys_eq_spec() -> bool {
        true
    }

    open spec fn eq_spec(&self, other: &Self) -> bool {
        self.0@ == other.0@
    }
}

impl<S> EuphRoom<S> {
    pub closed spec fn spec_focus(&self) -> Focus {
        self.focus
    }

    pub closed spec fn spec_state(&self) -> UiState {
        self.state
    }

    pub closed spec fn spec_popups(&self) -> Seq<RoomPopup> {
        self.popups@
    }

    pub closed spec fn spec_chat(&self) -> ChatState<S> {
        self.chat
    }

    pub closed spec fn spec_sending(&self) -> bool {
        self.sending
    }

    pub fn new(store: S) -> (r: Self)
        where
            S: Clone,
        ensures
            r.spec_focus() == Focus::Chat,
            r.spec_state() is Normal,
            r.spec_popups().len() == 0,
            r.spec_chat().spec_store() == store,
            !r.spec_sending(),
    {
        EuphRoom {
            focus: Focus::Chat,
            state: UiState::Normal,
            popups: Vec::new(),
            chat: ChatState::new(store),
            sending: false,
            nick_list: ListState::new(),
        }
    }

    pub fn focus(&self) -> (r: Focus)
        ensures
            r == self.spec_focus(),
    {
        self.focus
    }

    pub fn state(&self) -> (r: &UiState)
        ensures
            *r == self.spec_state(),
    {
        &self.state
    }

    pub fn popups(&self) -> (r: &Vec<RoomPopup>)
        ensures
            r@ == self.spec_popups(),
    {
        &self.popups
    }

    pub fn chat(&self) -> (r: &ChatState<S>)
        ensures
            *r == self.spec_chat(),
    {
        &self.chat
    }

    pub fn nick_list(&self) -> (r: &ListState<SessionId>)
        ensures
            *r == self.spec_nick_list(),
    {
        &self.nick_list
    }

    pub closed spec fn spec_nick_list(&self) -> ListState<SessionId> {
        self.nick_list
    }

    /// Lays out the nick list with `rows`, where the session rows can be
    /// selected; returns whether each row is selected.
    pub fn build_nick_list(&mut self, rows: &Vec<NickRow>) -> (r: Vec<bool>)
        ensures
            final(self).spec_nick_list().spec_rows() == nick_list_ids(rows@),
            final(self).spec_nick_list().cursor_on_selectable(),
            match old(self).spec_nick_list().fixed_cursor_row(nick_list_ids(rows@)) {
                Some(j) => old(self).spec_nick_list().moved_cursor_among(
                    nick_list_ids(rows@),
                    final(self).spec_nick_list(),
                    Some(j),
                ),
                None => final(self).spec_nick_list().spec_cursor_idx() is None,
            },
            r@.len() == rows@.len(),
            forall|i: int|
                0 <= i < rows@.len() ==> #[trigger] r@[i] == row_selected(
                    nick_list_ids(rows@)[i],
                    final(self).spec_nick_list().spec_cursor_id(),
                ),
            final(self).spec_state() == old(self).spec_state(),
            final(self).spec_focus() == old(self).spec_focus(),
            final(self).spec_popups() == old(self).spec_popups(),
            final(self).spec_chat() == old(self).spec_chat(),
    {
        let mut builder: ListBuilder<SessionId> = ListBuilder::new();
        let mut i: usize = 0;
        while i < rows.len()
            invariant
                i <= rows@.len(),
                builder.spec_rows() == nick_list_ids(rows@.take(i as int)),
            decreases rows@.len() - i,
        {
            proof {
                assert(rows@.take(i + 1) =~= rows@.take(i as int).push(rows@[i as int]));
            }
            match &rows[i] {
                NickRow::Session { session_id, .. } => builder.add_sel(SessionId(session_id.clone())),
                _ => builder.add_unsel(),
            }
            assert(builder.spec_rows() =~= nick_list_ids(rows@.take(i + 1)));
            i += 1;
        }
        assert(rows@.take(rows@.len() as int) =~= rows@);
        builder.build(&mut self.nick_list)
    }



    /// A message was sent and its answer is awaited.
    pub fn message_sent(&mut self)
        ensures
            final(self).spec_sending(),
            final(self).spec_state() == old(self).spec_state(),
            final(self).spec_focus() == old(self).spec_focus(),
    {
        self.sending = true;
    }

    /// A message could not be sent: the chat's cursor leaves the pending
    /// message for where it came from.
    pub fn send_failed(&mut self)
        ensures
            final(self).spec_chat().spec_cursor() == match old(self).spec_chat().spec_cursor() {
                Cursor::Pseudo { coming_from: Some(id), .. } => Cursor::Msg(id),
                Cursor::Pseudo { coming_from: None, .. } => Cursor::Bottom,
                c => c,
            },
            final(self).spec_chat().spec_store() == old(self).spec_chat().spec_store(),
            final(self).spec_chat().spec_tree() == old(self).spec_chat().spec_tree(),
            final(self).spec_state() == old(self).spec_state(),
            final(self).spec_focus() == old(self).spec_focus(),
            final(self).spec_sending() == old(self).spec_sending(),
    {
        self.chat.send_failed();
    }

    /// Follows the answer to a sent message: once it came, the pending
    /// message becomes the sent one; if it never comes, the cursor goes
    /// back. Returns whether the editor is to be cleared.
    pub fn stabilize_pseudo_msg(&mut self, outcome: SendOutcome) -> (r: bool)
        ensures
            !old(self).spec_sending() ==> !r && *final(self) == *old(self),
            old(self).spec_sending() ==> match outcome {
                SendOutcome::Waiting => !r && *final(self) == *old(self),
                SendOutcome::Sent(id) => !final(self).spec_sending() && r == (old(self).spec_chat().spec_cursor() is Pseudo),
                SendOutcome::Failed => !final(self).spec_sending() && !r,
            },
            final(self).spec_state() == old(self).spec_state(),
            final(self).spec_focus() == old(self).spec_focus(),
    {
        if !self.sending {
            return false;
        }
        match outcome {
            SendOutcome::Waiting => false,
            SendOutcome::Sent(id) => {
                self.sending = false;
                self.chat.send_successful(id)
            },
            SendOutcome::Failed => {
                self.sending = false;
                self.chat.send_failed();
                false
            },
        }
    }

    /// Without a joined room there is no nick list to focus.
    pub fn stabilize_focus(&mut self, view: &RoomView)
        ensures
            final(self).spec_focus() == if is_joined(view) {
                old(self).spec_focus()
            } else {
                Focus::Chat
            },
            final(self).spec_state() == old(self).spec_state(),
    {
        if !(matches!(view, RoomView::Joined(_))) {
            self.focus = Focus::Chat;
        }
    }

    /// Closes popups that no longer fit the room: the password popup once
    /// no password is asked for, the nick popup once the room is no longer
    /// joined, and the account popup once the room is no longer joined.
    pub fn stabilize_state(&mut self, view: &RoomView)
        ensures
            final(self).spec_focus() == old(self).spec_focus(),
            match old(self).spec_state() {
                UiState::Auth => if view matches RoomView::Joining { bounce: true } {
                    final(self).spec_state() is Auth
                } else {
                    final(self).spec_state() is Normal
                },
                UiState::Nick => if is_joined(view) {
                    final(self).spec_state() is Nick
                } else {
                    final(self).spec_state() is Normal
                },
                UiState::Account(_) => if is_joined(view) {
                    final(self).spec_state() is Account
                } else {
                    final(self).spec_state() is Normal
                },
                _ => final(self).spec_state() == old(self).spec_state(),
            },
    {
        match self.state {
            UiState::Auth => {
                if !(matches!(view, RoomView::Joining { bounce: true })) {
                    self.state = UiState::Normal;
                }
            },
            UiState::Nick => {
                if !(matches!(view, RoomView::Joined(_))) {
                    self.state = UiState::Normal;
                }
            },
            UiState::Account(ref mut account) => {
                let joined = match view {
                    RoomView::Joined(j) => Some(
                        match &j.account {
                            Some(email) => Some(email.clone()),
                            None => None,
                        },
                    ),
                    _ => None,
                };
                if !account.stabilize(joined) {
                    self.state = UiState::Normal;
                }
            },
            _ => {},
        }
    }

    /// What a reply from the server does: a failed authentication or login
    /// opens an error popup. Returns whether the screen changes (pings and
    /// the announcement of a disconnect do not change it).
    pub fn handle_euph_data(&mut self, data: &ServerData) -> (r: bool)
        ensures
            r == !(data is PingEvent || data is PingReply || data is DisconnectEvent),
            final(self).spec_state() == old(self).spec_state(),
            final(self).spec_focus() == old(self).spec_focus(),
            final(self).spec_popups().len() == old(self).spec_popups().len() + match data {
                ServerData::AuthReply { success, .. } => if *success { 0int } else { 1 },
                ServerData::LoginReply { success, .. } => if *success { 0int } else { 1 },
                _ => 0,
            },
            final(self).spec_popups().len() > old(self).spec_popups().len() ==> final(self).spec_popups().skip(1)
                == old(self).spec_popups() && (final(self).spec_popups()[0] matches RoomPopup::Error {
                description,
                reason,
            } && description@ == failure_text(
                if data is AuthReply {
                    "authenticate"@
                } else {
                    "login"@
                },
            ) && reason@ == match data {
                ServerData::AuthReply { reason, .. } => match reason {
                    Some(r) => r@,
                    None => "no idea, the server wouldn't say"@,
                },
                ServerData::LoginReply { reason, .. } => match reason {
                    Some(r) => r@,
                    None => "no idea, the server wouldn't say"@,
                },
                _ => Seq::empty(),
            }),
    {
        let handled = match data {
            ServerData::PingEvent | ServerData::PingReply => false,
            ServerData::DisconnectEvent => false,
            _ => true,
        };
        let error: Option<(&str, &Option<String>)> = match data {
            ServerData::AuthReply { success, reason } => if !*success {
                Some(("authenticate", reason))
            } else {
                None
            },
            ServerData::LoginReply { success, reason } => if !*success {
                Some(("login", reason))
            } else {
                None
            },
            _ => None,
        };
        if let Some((action, reason)) = error {
            let description = failure_description(action);
            let reason = match reason {
                Some(r) => r.clone(),
                None => String::from_str("no idea, the server wouldn't say"),
            };
            self.popups.insert(0, RoomPopup::Error { description, reason });
            assert(self.popups@.skip(1) =~= old(self).spec_popups());
        }
        handled
    }

    /// What an error reply of type `t` with `reason` does: for the replies
    /// it concerns, an error popup. Returns whether it did.
    pub fn handle_euph_error(&mut self, t: ReplyType, reason: &str) -> (r: bool)
        ensures
            r == (failed_action_text(t) is Some),
            final(self).spec_state() == old(self).spec_state(),
            final(self).spec_focus() == old(self).spec_focus(),
            !r ==> final(self).spec_popups() == old(self).spec_popups(),
            r ==> final(self).spec_popups().skip(1) == old(self).spec_popups() && (final(self).spec_popups()[0] matches RoomPopup::Error {
                description,
                reason: why,
            } && description@ == failure_text(failed_action_text(t)->0) && why@ == reason@),
    {
        let action = match failed_action(t) {
            Some(a) => a,
            None => {
                return false;
            },
        };
        let description = failure_description(action);
        self.popups.insert(0, RoomPopup::Error { description, reason: String::from_str(reason) });
        assert(self.popups@.skip(1) =~= old(self).spec_popups());
        true
    }

    /// A link could not be opened: an error popup says so.
    pub fn link_error(&mut self, link: &str, error: &str)
        ensures
            final(self).spec_popups().skip(1) == old(self).spec_popups(),
            final(self).spec_popups()[0] matches RoomPopup::Error { description, reason } && description@
                == "Failed to open link: "@ + link@ && reason@ == error@,
            final(self).spec_state() == old(self).spec_state(),
    {
        let mut description = String::from_str("Failed to open link: ");
        description.append(link);
        self.popups.insert(0, RoomPopup::Error { description, reason: String::from_str(error) });
        assert(self.popups@.skip(1) =~= old(self).spec_popups());
    }

    /// Lays out the list of the links popup, where it is shown; returns
    /// whether each row is selected.
    pub fn build_links_list(&mut self) -> (r: Option<Vec<bool>>)
        ensures
            match old(self).spec_state() {
                UiState::Links(l) => (r matches Some(flags) && (final(self).spec_state() matches UiState::Links(
                    l2,
                ) && links_built(l, l2, flags@))),
                _ => r is None && final(self).spec_state() == old(self).spec_state(),
            },
            final(self).spec_focus() == old(self).spec_focus(),
            final(self).spec_popups() == old(self).spec_popups(),
            final(self).spec_chat() == old(self).spec_chat(),
    {
        match self.state {
            UiState::Links(ref mut links) => Some(links.build_list()),
            _ => None,
        }
    }

    /// Message `id` was loaded in full: it is shown.
    pub fn inspect_message(&mut self, id: u64)
        ensures
            final(self).spec_state() == UiState::InspectMessage(id),
            final(self).spec_focus() == old(self).spec_focus(),
    {
        self.state = UiState::InspectMessage(id);
    }

    /// The links of a message with text `content` are shown.
    pub fn show_links(&mut self, content: &str, emoji: &Emoji)
        ensures
            final(self).spec_state() is Links,
            final(self).spec_focus() == old(self).spec_focus(),
    {
        self.state = UiState::Links(LinksState::new(content, emoji));
    }

    /// Keys of the room itself: while a password is asked for, the key to
    /// enter it; once joined, the keys to choose a nick, to load older
    /// messages and to open the account popup.
    fn handle_room_input_event(&mut self, keys: &KeyMatches, view: &RoomView) -> (r: RoomAction)
        ensures
            final(self).spec_chat() == old(self).spec_chat(),
            room_keys_reaction(*old(self), *final(self), *keys, *view, r),
            !room_key_applies(*keys, *view) ==> r is NotHandled,
    {
        match view {
            RoomView::Joining { bounce: true } => {
                if keys.room_authenticate {
                    self.state = UiState::Auth;
                    return RoomAction::Handled;
                }
            },
            RoomView::Joined(_) => {
                if keys.room_nick {
                    self.state = UiState::Nick;
                    return RoomAction::Handled;
                }
                if keys.room_more_messages {
                    return RoomAction::RequestMoreLogs;
                }
                if keys.room_account {
                    self.state = UiState::Account(AccountUiState::new());
                    return RoomAction::Handled;
                }
            },
            _ => {},
        }
        RoomAction::NotHandled
    }

    /// The rest of the keys with the chat focused, after the chat itself:
    /// the room's keys, inspecting the message under the cursor, and its
    /// links; then the focus key, which moves to the nick list in a joined
    /// room.
    fn handle_chat_focus_rest(&mut self, keys: &KeyMatches, view: &RoomView) -> (r: RoomAction)
        ensures
            final(self).spec_chat() == old(self).spec_chat(),
            chat_focus_rest(old(self).spec_chat().spec_cursor(), *old(self), *final(self), *keys, *view, r),
    {
        match self.handle_room_input_event(keys, view) {
            RoomAction::NotHandled => {},
            other => {
                return other;
            },
        }
        if keys.inspect {
            return match self.chat.cursor() {
                Some(id) => RoomAction::LoadMessageToInspect(*id),
                None => RoomAction::Handled,
            };
        }
        if keys.links {
            return match self.chat.cursor() {
                Some(id) => RoomAction::LoadMessageForLinks(*id),
                None => RoomAction::Handled,
            };
        }
        if matches!(view, RoomView::Joined(_)) && keys.focus {
            self.focus = Focus::NickList;
            return RoomAction::Handled;
        }
        RoomAction::NotHandled
    }

    /// The chat's editor did not handle the key: the chat and the room get
    /// their turn.
    pub fn after_chat_editor(&mut self, keys: &KeyMatches, view: &RoomView) -> (r: RoomAction)
        ensures
            if keys.toggle_nick_emoji || keys.increase_caesar || keys.decrease_caesar {
                &&& r is Handled
                &&& same_screen(*old(self), *final(self))
                &&& chat_reaction(
                    old(self).spec_chat(),
                    final(self).spec_chat(),
                    *keys,
                    TreeReaction::NotHandled,
                    TreeReaction::Handled,
                )
                &&& final(self).spec_chat().spec_store() == old(self).spec_chat().spec_store()
                &&& final(self).spec_chat().spec_cursor() == old(self).spec_chat().spec_cursor()
                &&& final(self).spec_chat().spec_tree() == old(self).spec_chat().spec_tree()
            } else {
                final(self).spec_chat() == old(self).spec_chat() && chat_focus_rest(
                    old(self).spec_chat().spec_cursor(),
                    *old(self),
                    *final(self),
                    *keys,
                    *view,
                    r,
                )
            },
    {
        match self.chat.finish_reaction(keys, Reaction::NotHandled) {
            Reaction::NotHandled => self.handle_chat_focus_rest(keys, view),
            _ => RoomAction::Handled,
        }
    }

    /// Keys with the nick list focused: aborting or the focus key go back to
    /// the chat; list keys move in the list; inspecting shows the selected
    /// session.
    fn handle_nick_list_input_event(&mut self, keys: &KeyMatches, view: &RoomView) -> (r: RoomAction)
        ensures
            final(self).spec_chat() == old(self).spec_chat(),
            nick_list_reaction(*old(self), *final(self), *keys, *view, r),
    {
        if keys.abort || keys.focus {
            self.focus = Focus::Chat;
            return RoomAction::Handled;
        }
        if handle_list_input_event(&mut self.nick_list, keys) {
            return RoomAction::Handled;
        }
        if keys.inspect {
            if let RoomView::Joined(joined) = view {
                if let Some(id) = self.nick_list.selected() {
                    if session_in(joined, id.0.as_str()) {
                        self.state = UiState::InspectSession(id.0.clone());
                    }
                }
            }
            return RoomAction::Handled;
        }
        RoomAction::NotHandled
    }

    /// Reacts to a key. With error popups open, aborting closes the oldest
    /// and nothing else gets the key. In a popup, the popup reacts; closing
    /// it shows the room again. Otherwise the focused chat (or nick list)
    /// reacts, then the room's keys. `text` is what the chat's editor holds;
    /// `frame_height` is the height of the chat's frame; `has_room` says
    /// whether the room is connected.
    pub fn handle_input_event<M: Msg>(
        &mut self,
        keys: &KeyMatches,
        frame_height: u16,
        text: &str,
        account_email: &str,
        account_password: &str,
        typed: Option<char>,
        view: &RoomView,
        has_room: bool,
    ) -> (r: Result<RoomAction, S::Error>)
        where
            S: MsgStore<M>,
        requires
            frame_height >= 3,
        ensures
            old(self).spec_popups().len() == 0 && (old(self).spec_state() is Auth || old(self).spec_state() is Nick) ==> if keys.abort {
                (r matches Ok(a) && a is Handled) && final(self).spec_state() is Normal
            } else if keys.confirm {
                (r matches Ok(a) && if old(self).spec_state() is Auth { a is Authenticate } else { a is ChangeNick })
                    && final(self).spec_state() is Normal
            } else {
                (r matches Ok(a) && a is PopupEditor) && *final(self) == *old(self)
            },
            old(self).spec_popups().len() == 0 && (old(self).spec_state() is InspectMessage || old(self).spec_state() is InspectSession) ==> if keys.abort {
                (r matches Ok(a) && a is Handled) && final(self).spec_state() is Normal
            } else {
                (r matches Ok(a) && a is NotHandled) && *final(self) == *old(self)
            },
            old(self).spec_popups().len() == 0 && old(self).spec_state() is Normal && old(self).spec_focus() == Focus::NickList
                && (keys.abort || keys.focus) ==> (r matches Ok(a) && a is Handled) && final(self).spec_focus() == Focus::Chat,
            old(self).spec_popups().len() > 0 ==> (if keys.abort {
                r matches Ok(a) && a is Handled && final(self).spec_popups() == old(self).spec_popups().drop_last()
            } else {
                r matches Ok(a) && a is NotHandled && *final(self) == *old(self)
            }),
            old(self).spec_popups().len() == 0 && !(old(self).spec_state() is Normal) && keys.abort && !(old(
                self,
            ).spec_state() is Links) ==> (r matches Ok(a) && a is Handled && final(self).spec_state() is Normal),
            old(self).spec_state() matches UiState::Account(acc) ==> (old(self).spec_popups().len() == 0 ==> (r matches Ok(
                ra,
            ) && final(self).spec_chat() == old(self).spec_chat() && exists|acc2: AccountUiState, aa: AccountAction|
                #[trigger] account_reaction(acc, acc2, *keys, account_email@, account_password@, aa) && ra == account_room_action(aa) && state_becomes(
                    *old(self),
                    *final(self),
                    if aa is Close {
                        UiState::Normal
                    } else {
                        UiState::Account(acc2)
                    },
                ))),
            old(self).spec_state() matches UiState::Links(ls) ==> (old(self).spec_popups().len() == 0 ==> (r matches Ok(ra)
                && final(self).spec_chat() == old(self).spec_chat() && exists|ls2: LinksState, la: LinksAction|
                #[trigger] links_reaction(ls, ls2, *keys, typed, la) && ra == links_room_action(la) && state_becomes(
                    *old(self),
                    *final(self),
                    if la is Close {
                        UiState::Normal
                    } else {
                        UiState::Links(ls2)
                    },
                ))),
            old(self).spec_popups().len() == 0 && old(self).spec_state() is Normal && old(self).spec_focus()
                == Focus::Chat ==> (r matches Ok(ra) ==> exists|t: TreeReaction|
                #[trigger] chat_input::<M, S>(
                    old(self).spec_chat(),
                    final(self).spec_chat(),
                    *keys,
                    frame_height,
                    text@,
                    view is Joined,
                    t,
                ) && chat_action(*old(self), *final(self), *keys, *view, has_room, t, ra)),
            old(self).spec_popups().len() == 0 && old(self).spec_state() is Normal && old(self).spec_focus()
                == Focus::NickList ==> (r matches Ok(ra) && final(self).spec_chat() == old(self).spec_chat()
                && nick_list_reaction(*old(self), *final(self), *keys, *view, ra)),
    {
        if self.popups.len() > 0 {
            if keys.abort {
                self.popups.pop();
                return Ok(RoomAction::Handled);
            }
            return Ok(RoomAction::NotHandled);
        }
        match self.state {
            UiState::Normal => {},
            UiState::Auth => {
                if keys.abort {
                    self.state = UiState::Normal;
                    return Ok(RoomAction::Handled);
                }
                if keys.confirm {
                    self.state = UiState::Normal;
                    return Ok(RoomAction::Authenticate);
                }
                return Ok(RoomAction::PopupEditor);
            },
            UiState::Nick => {
                if keys.abort {
                    self.state = UiState::Normal;
                    return Ok(RoomAction::Handled);
                }
                if keys.confirm {
                    self.state = UiState::Normal;
                    return Ok(RoomAction::ChangeNick);
                }
                return Ok(RoomAction::PopupEditor);
            },
            UiState::Account(ref mut account) => {
                return Ok(
                    match account.handle_input_event(keys, account_email, account_password) {
                        AccountAction::Close => {
                            self.state = UiState::Normal;
                            RoomAction::Handled
                        },
                        AccountAction::Handled => RoomAction::Handled,
                        AccountAction::NotHandled => RoomAction::NotHandled,
                        AccountAction::Login { email, password } => RoomAction::Login { email, password },
                        AccountAction::Logout => RoomAction::Logout,
                        AccountAction::ToEditor(_) => RoomAction::PopupEditor,
                    },
                );
            },
            UiState::Links(ref mut links) => {
                return Ok(
                    match links.handle_input_event(keys, typed) {
                        LinksAction::Close => {
                            self.state = UiState::Normal;
                            RoomAction::Handled
                        },
                        LinksAction::Handled => RoomAction::Handled,
                        LinksAction::NotHandled => RoomAction::NotHandled,
                        LinksAction::OpenUrl(u) => RoomAction::OpenUrl(u),
                        LinksAction::SwitchToRoom(n) => RoomAction::SwitchToRoom(n),
                    },
                );
            },
            UiState::InspectMessage(_) | UiState::InspectSession(_) => {
                if keys.abort {
                    self.state = UiState::Normal;
                    return Ok(RoomAction::Handled);
                }
                return Ok(RoomAction::NotHandled);
            },
        }
        match self.focus {
            Focus::Chat => {
                let can_compose = matches!(view, RoomView::Joined(_));
                assert(can_compose == view is Joined);
                let ghost before = *self;
                let reaction = self.chat.handle_input_event::<M>(keys, frame_height, text, can_compose);
                proof {
                    if reaction is Ok {
                        assert(chat_input::<M, S>(before.spec_chat(), self.spec_chat(), *keys, frame_height, text@, view is Joined, reaction->Ok_0));
                    }
                    assert(same_screen(before, *self));
                }
                match reaction {
                    Err(e) => Err(e),
                    Ok(TreeReaction::NotHandled) => Ok(self.handle_chat_focus_rest(keys, view)),
                    Ok(TreeReaction::Handled) => Ok(RoomAction::Handled),
                    Ok(TreeReaction::ScrollBy(d)) => Ok(RoomAction::ScrollChat(d)),
                    Ok(TreeReaction::CenterCursor) => Ok(RoomAction::CenterChat),
                    Ok(TreeReaction::ToEditor) => Ok(RoomAction::ChatEditor),
                    Ok(TreeReaction::Composed { parent, content }) => {
                        if has_room {
                            Ok(RoomAction::Send { parent, content })
                        } else {
                            Ok(self.handle_chat_focus_rest(keys, view))
                        }
                    },
                }
            },
            Focus::NickList => Ok(self.handle_nick_list_input_event(keys, view)),
        }
    }
}

} // verus!
