//! What the main area of a room shows, and how it reacts to keys.

use vstd::prelude::*;
use vstd::string::StringExecFns;

use crate::layout::{centered, centered_v, rect_ok, spec_centered, spec_centered_v, Rect};
use crate::text::{str_width, text_width};
use crate::textline::{key_effect, EventHandler, KeyCode, TextLineState};

verus! {

/// What the main area of a room shows.
pub enum Main {
    Empty,
    Connecting,
    Identifying,
    ChooseNick { nick: TextLineState, prev_error: Option<String> },
    Messages,
    FatalError(String),
}

impl Main {
    /// Asking for a nick, with an empty text box and no error.
    pub fn choose_nick() -> (r: Self)
        ensures
            r matches Main::ChooseNick { nick, prev_error } && nick.spec_content().len() == 0
                && nick.spec_cursor() == 0 && prev_error is None,
    {
        Self::ChooseNick { nick: TextLineState::default(), prev_error: None }
    }

    /// A fatal error with the message `s`.
    pub fn fatal(s: &str) -> (r: Self)
        ensures
            r matches Main::FatalError(e) && e@ == s@,
    {
        Self::FatalError(String::from_str(s))
    }
}

/// How the body of a room reacted to a key press.
#[derive(Debug)]
pub enum Reaction {
    Handled,
    Identify(String),
}

/// The body of a room, following the state of its connection.
pub enum Body {
    Empty,
    Connecting,
    ChoosingRoom,
    Identifying,
    ChooseNick { nick: TextLineState, prev_error: Option<String> },
    Present,
    Stopped,
}

impl Default for Body {
    fn default() -> (r: Self)
        ensures
            r is Empty,
    {
        Self::Empty
    }
}

impl Body {
    /// Asks for a nick, keeping the text box if it already asks, and shows
    /// `error` as the reason.
    pub fn choose_nick(&mut self, error: Option<String>)
        ensures
            *final(self) matches Body::ChooseNick { nick, prev_error } && prev_error == error
                && match *old(self) {
                Body::ChooseNick { nick: old_nick, .. } => nick == old_nick,
                _ => nick.spec_content().len() == 0 && nick.spec_cursor() == 0,
            },
    {
        match self {
            Self::ChooseNick { prev_error, .. } => *prev_error = error,
            _ => {
                *self = Self::ChooseNick { nick: TextLineState::default(), prev_error: error };
            },
        }
    }
}

impl EventHandler for Body {
    type Reaction = Reaction;

    /// While asking for a nick, Enter identifies with the typed nick and
    /// other keys edit it; otherwise keys are not handled.
    fn handle_key(&mut self, code: KeyCode) -> (r: Option<Reaction>)
        ensures
            match *old(self) {
                Body::ChooseNick { nick, prev_error } => if code == KeyCode::Enter {
                    *final(self) == *old(self) && (r matches Some(Reaction::Identify(n)) && n@
                        == nick.spec_content())
                } else {
                    let (c, k, t) = key_effect(nick.spec_content(), nick.spec_cursor(), code);
                    &&& *final(self) matches Body::ChooseNick { nick: new_nick, prev_error: new_error }
                        && new_error == prev_error && new_nick.spec_content() == c
                        && new_nick.spec_cursor() == k
                    &&& r == (if t is Some {
                        Some(Reaction::Handled)
                    } else {
                        None
                    })
                },
                _ => *final(self) == *old(self) && r is None,
            },
    {
        match self {
            Self::ChooseNick { nick, .. } => {
                if code == KeyCode::Enter {
                    Some(Reaction::Identify(nick.content()))
                } else {
                    let t = nick.handle_key(code);
                    if t.is_some() {
                        Some(Reaction::Handled)
                    } else {
                        None
                    }
                }
            },
            _ => None,
        }
    }
}

/// How a room's connection stands, as the client reports it.
pub enum Status {
    Nominal,
    NickRequired,
    CouldNotConnect,
    InvalidRoom(String),
    InvalidNick(String),
    InvalidIdentity(String),
}

/// A room in the list of rooms, with what its main area shows.
pub struct RoomInfo {
    name: String,
    main: Main,
}

/// What to draw in a room's main area.
pub enum MainView {
    Nothing,
    /// A bold text.
    Title { area: Rect, text: &'static str },
    /// The prompt for a nick (after the error, if there is one, and an empty
    /// line) and the text box below it.
    ChooseNick { prompt_area: Rect, error: Option<String>, nick_area: Rect },
    Messages { area: Rect },
    /// The heading `Fatal error:` above the error, centered.
    Fatal { area: Rect, error: String },
}

/// `text`'s width in columns, as `u16` (wrapping like `as u16`).
pub open spec fn width16(text: Seq<char>) -> u16 {
    text_width(text) as u16
}

/// The larger of two widths.
pub open spec fn max16(a: u16, b: u16) -> u16 {
    if a < b {
        b
    } else {
        a
    }
}

fn width_u16(text: &str) -> (r: u16)
    ensures
        r == width16(text@),
{
    #[verifier::truncate]
    let w = str_width(text) as u16;
    w
}

impl RoomInfo {
    pub closed spec fn spec_name(&self) -> Seq<char> {
        self.name@
    }

    pub closed spec fn spec_main(&self) -> Main {
        self.main
    }

    /// A room called `name`, with nothing shown yet.
    pub fn new(name: String) -> (r: Self)
        ensures
            r.spec_name() == name@,
            r.spec_main() is Empty,
    {
        RoomInfo { name, main: Main::Empty }
    }

    pub fn name(&self) -> (r: &str)
        ensures
            r@ == self.spec_name(),
    {
        self.name.as_str()
    }

    /// Follows the room's status: messages once connected and present, else
    /// connecting or identifying; a fresh nick prompt where a nick is
    /// required; the error of an invalid nick in the prompt; fatal errors
    /// otherwise.
    pub fn align_main(&mut self, status: &Status, connected: bool, present: bool)
        ensures
            final(self).spec_name() == old(self).spec_name(),
            match status {
                Status::Nominal => if connected && present {
                    final(self).spec_main() is Messages
                } else if connected {
                    final(self).spec_main() is Connecting
                } else {
                    final(self).spec_main() is Identifying
                },
                Status::NickRequired => final(self).spec_main() matches Main::ChooseNick { nick, prev_error }
                    && nick.spec_content().len() == 0 && prev_error is None,
                Status::CouldNotConnect => final(self).spec_main() matches Main::FatalError(e) && e@
                    == "Could not connect to room"@,
                Status::InvalidRoom(err) => final(self).spec_main() matches Main::FatalError(e) && e@
                    == "Invalid room:\n"@ + err@,
                Status::InvalidNick(err) => match old(self).spec_main() {
                    Main::ChooseNick { nick, .. } => final(self).spec_main() matches Main::ChooseNick {
                        nick: n,
                        prev_error,
                    } && n == nick && (prev_error matches Some(e) && e@ == err@),
                    _ => final(self).spec_main() matches Main::ChooseNick { nick, prev_error }
                        && nick.spec_content().len() == 0 && prev_error is None,
                },
                Status::InvalidIdentity(err) => final(self).spec_main() matches Main::FatalError(e) && e@
                    == "Invalid identity:\n"@ + err@,
            },
    {
        match status {
            Status::Nominal => {
                if connected && present {
                    if !(matches!(self.main, Main::Messages)) {
                        self.main = Main::Messages;
                    }
                } else if connected {
                    self.main = Main::Connecting;
                } else {
                    self.main = Main::Identifying;
                }
            },
            Status::NickRequired => {
                self.main = Main::choose_nick();
            },
            Status::CouldNotConnect => {
                self.main = Main::fatal("Could not connect to room");
            },
            Status::InvalidRoom(err) => {
                let mut text = String::from_str("Invalid room:\n");
                text.append(err.as_str());
                self.main = Main::FatalError(text);
            },
            Status::InvalidNick(err) => {
                match self.main {
                    Main::ChooseNick { ref mut prev_error, .. } => {
                        *prev_error = Some(err.clone());
                    },
                    _ => {
                        self.main = Main::choose_nick();
                    },
                }
            },
            Status::InvalidIdentity(err) => {
                let mut text = String::from_str("Invalid identity:\n");
                text.append(err.as_str());
                self.main = Main::FatalError(text);
            },
        }
    }

    /// Where to draw the main area's contents within `area`: short texts and
    /// errors centered, the nick prompt in a centered box at least 50 wide
    /// with the text box on its last line (which needs an area that does not
    /// end at the top of the screen).
    pub fn main_view(&self, area: Rect) -> (r: MainView)
        requires
            rect_ok(area),
            area.y + area.height < u16::MAX,
            self.spec_main() matches Main::ChooseNick { prev_error: Some(_), .. } ==> area.y + area.height > 0,
        ensures
            match self.spec_main() {
                Main::Empty => r is Nothing,
                Main::Connecting => r == (MainView::Title {
                    area: spec_centered(width16("Connecing..."@), 1, area),
                    text: "Connecing...",
                }),
                Main::Identifying => r == (MainView::Title {
                    area: spec_centered(width16("Identifying..."@), 1, area),
                    text: "Identifying...",
                }),
                Main::ChooseNick { prev_error: None, .. } => {
                    let a = spec_centered(50, 2, area);
                    r == (MainView::ChooseNick {
                        prompt_area: Rect { height: 1, ..a },
                        error: None,
                        nick_area: Rect { y: (a.y + 1) as u16, height: 1, ..a },
                    })
                },
                Main::ChooseNick { prev_error: Some(err), .. } => {
                    let a = spec_centered(max16(width16(err@), 50), 5, area);
                    r matches MainView::ChooseNick { prompt_area, error: Some(e), nick_area }
                        && e@ == err@ && prompt_area == (Rect { height: 4, ..a }) && nick_area == (Rect {
                        y: (a.y + a.height - 1) as u16,
                        height: 1,
                        ..a
                    })
                },
                Main::Messages => r == (MainView::Messages { area }),
                Main::FatalError(err) => r matches MainView::Fatal { area: a, error: e } && e@ == err@ && a
                    == spec_centered(max16(width16(err@), width16("Fatal error:"@)), 2, area),
            },
    {
        match &self.main {
            Main::Empty => MainView::Nothing,
            Main::Connecting => {
                let text = "Connecing...";
                MainView::Title { area: centered(width_u16(text), 1, area), text }
            },
            Main::Identifying => {
                let text = "Identifying...";
                MainView::Title { area: centered(width_u16(text), 1, area), text }
            },
            Main::ChooseNick { prev_error: None, .. } => {
                let a = centered(50, 2, area);
                let top = Rect { height: 1, ..a };
                let bot = Rect { y: top.y + 1, ..top };
                MainView::ChooseNick { prompt_area: top, error: None, nick_area: bot }
            },
            Main::ChooseNick { prev_error: Some(err), .. } => {
                let ew = width_u16(err.as_str());
                let width = if ew < 50 {
                    50
                } else {
                    ew
                };
                let height: u16 = 5;
                let a = centered(width, height, area);
                let top = Rect { height: height - 1, ..a };
                let bot = Rect { y: a.y + a.height - 1, height: 1, ..a };
                MainView::ChooseNick { prompt_area: top, error: Some(err.clone()), nick_area: bot }
            },
            Main::Messages => MainView::Messages { area },
            Main::FatalError(err) => {
                let title = "Fatal error:";
                let ew = width_u16(err.as_str());
                let tw = width_u16(title);
                let width = if ew < tw {
                    tw
                } else {
                    ew
                };
                MainView::Fatal { area: centered(width, 2, area), error: err.clone() }
            },
        }
    }
}

/// How a room's connection stands, for its body.
pub enum ConnState {
    Connecting,
    ChoosingRoom,
    Identifying,
    /// A nick is required; the error of the last attempt, if any.
    IdRequired(Option<String>),
    Present,
    Stopped,
}

/// What to draw in a room's body.
pub enum BodyView {
    /// A bold text.
    Title { area: Rect, text: &'static str },
    /// The prompt `Choose a nick:`, the text box and the error (if any), one
    /// line each, in `area`.
    ChooseNick { area: Rect, error: Option<String> },
}

impl Body {
    /// Follows the room's connection.
    pub fn update(&mut self, state: &ConnState)
        ensures
            match state {
                ConnState::Connecting => *final(self) is Connecting,
                ConnState::ChoosingRoom => *final(self) is ChoosingRoom,
                ConnState::Identifying => *final(self) is Identifying,
                ConnState::IdRequired(error) => *final(self) matches Body::ChooseNick { nick, prev_error }
                    && prev_error == *error && match *old(self) {
                    Body::ChooseNick { nick: old_nick, .. } => nick == old_nick,
                    _ => nick.spec_content().len() == 0 && nick.spec_cursor() == 0,
                },
                ConnState::Present => *final(self) is Present,
                ConnState::Stopped => *final(self) is Stopped,
            },
    {
        match state {
            ConnState::Connecting => {
                *self = Body::Connecting;
            },
            ConnState::ChoosingRoom => {
                *self = Body::ChoosingRoom;
            },
            ConnState::Identifying => {
                *self = Body::Identifying;
            },
            ConnState::IdRequired(error) => {
                let error = match error {
                    Some(e) => Some(e.clone()),
                    None => None,
                };
                self.choose_nick(error);
            },
            ConnState::Present => {
                *self = Body::Present;
            },
            ConnState::Stopped => {
                *self = Body::Stopped;
            },
        }
    }

    /// Where to draw the body within `area`: short texts centered, the nick
    /// prompt in a band of two lines (three with an error) across the middle.
    /// An empty body cannot be drawn.
    pub fn view(&self, area: Rect) -> (r: BodyView)
        requires
            rect_ok(area),
            !(*self is Empty),
        ensures
            match *self {
                Body::Connecting => r == (BodyView::Title {
                    area: spec_centered(width16("Connecting..."@), 1, area),
                    text: "Connecting...",
                }),
                Body::ChoosingRoom => r == (BodyView::Title {
                    area: spec_centered(width16("Entering room..."@), 1, area),
                    text: "Entering room...",
                }),
                Body::Identifying => r == (BodyView::Title {
                    area: spec_centered(width16("Identifying..."@), 1, area),
                    text: "Identifying...",
                }),
                Body::ChooseNick { prev_error: None, .. } => r == (BodyView::ChooseNick {
                    area: spec_centered_v(2, area),
                    error: None,
                }),
                Body::ChooseNick { prev_error: Some(err), .. } => r matches BodyView::ChooseNick {
                    area: a,
                    error: Some(e),
                } && a == spec_centered_v(3, area) && e@ == err@,
                Body::Present => r == (BodyView::Title {
                    area: spec_centered(width16("Present"@), 1, area),
                    text: "Present",
                }),
                Body::Stopped => r == (BodyView::Title {
                    area: spec_centered(width16("Stopped"@), 1, area),
                    text: "Stopped",
                }),
                Body::Empty => false,
            },
    {
        match self {
            Body::Empty => {
                assert(false);
                BodyView::Title { area, text: "" }
            },
            Body::Connecting => {
                let text = "Connecting...";
                BodyView::Title { area: centered(width_u16(text), 1, area), text }
            },
            Body::ChoosingRoom => {
                let text = "Entering room...";
                BodyView::Title { area: centered(width_u16(text), 1, area), text }
            },
            Body::Identifying => {
                let text = "Identifying...";
                BodyView::Title { area: centered(width_u16(text), 1, area), text }
            },
            Body::ChooseNick { prev_error: None, .. } => BodyView::ChooseNick {
                area: centered_v(2, area),
                error: None,
            },
            Body::ChooseNick { prev_error: Some(err), .. } => BodyView::ChooseNick {
                area: centered_v(3, area),
                error: Some(err.clone()),
            },
            Body::Present => {
                let text = "Present";
                BodyView::Title { area: centered(width_u16(text), 1, area), text }
            },
            Body::Stopped => {
                let text = "Stopped";
                BodyView::Title { area: centered(width_u16(text), 1, area), text }
            },
        }
    }
}

} // verus!
