//! Rooms: how they are identified, and the popups for connecting to and
//! deleting them.

use vstd::prelude::*;
use vstd::string::StrSliceExecFns;
use vstd::string::StringExecFns;
use vstd::std_specs::cmp::PartialEqSpecImpl;

use crate::keys::KeyMatches;
use crate::list::{
    handle_list_input_event, is_list_key, list_key_effect, none_selectable_in, row_selected, ListBuilder, ListState,
};
use crate::text::{decimal, lemma_lex_less_asymmetric, lemma_lex_less_transitive, lex_less, spec_decimal, str_less};

verus! {

broadcast use vstd::seq_lib::group_to_multiset_ensures;

/// A room on a server.
#[derive(Debug, Eq, Hash, PartialOrd, Ord)]
pub struct RoomIdentifier {
    pub domain: String,
    pub name: String,
}

/// Two rooms are the same when their domains and names are.
impl PartialEq for RoomIdentifier {
    fn eq(&self, other: &Self) -> (r: bool) {
        self.domain == other.domain && self.name == other.name
    }
}

impl PartialEqSpecImpl for RoomIdentifier {
    open spec fn obeys_eq_spec() -> bool {
        true
    }

    open spec fn eq_spec(&self, other: &Self) -> bool {
        self.domain@ == other.domain@ && self.name@ == other.name@
    }
}

impl Clone for RoomIdentifier {
    fn clone(&self) -> (r: Self)
        ensures
            r == *self,
    {
        RoomIdentifier { domain: self.domain.clone(), name: self.name.clone() }
    }
}

impl RoomIdentifier {
    pub fn new(domain: String, name: String) -> (r: Self)
        ensures
            r.domain == domain,
            r.name == name,
    {
        Self { domain, name }
    }
}

/// Which text box of the "Connect to" popup has the focus.
#[derive(Debug, Clone, Copy, PartialEq, Eq, Structural)]
pub enum Focus {
    Name,
    Domain,
}

impl Focus {
    pub open spec fn advance_spec(self) -> Focus {
        match self {
            Focus::Name => Focus::Domain,
            Focus::Domain => Focus::Name,
        }
    }

    /// The other text box.
    pub fn advance(self) -> (r: Self)
        ensures
            r == self.advance_spec(),
    {
        match self {
            Self::Name => Self::Domain,
            Self::Domain => Self::Name,
        }
    }
}

/// How the "Connect to" popup reacted to an input event.
pub enum ConnectResult {
    Close,
    Connect(RoomIdentifier),
    Handled,
    Unhandled,
}

/// How the "Delete room" popup reacted to an input event.
pub enum DeleteResult {
    Close,
    Delete(RoomIdentifier),
    Handled,
    Unhandled,
}

/// The "Connect to" popup: which of its text boxes (room name and domain)
/// has the focus. The text boxes themselves belong to the caller.
pub struct ConnectState {
    focus: Focus,
}

impl ConnectState {
    /// The domain the popup starts with.
    pub fn initial_domain() -> (r: &'static str)
        ensures
            r@ == "euphoria.leet.nu"@,
    {
        "euphoria.leet.nu"
    }

    /// A popup with the focus on the room name.
    pub fn new() -> (r: Self)
        ensures
            r.spec_focus() == Focus::Name,
    {
        ConnectState { focus: Focus::Name }
    }

    pub closed spec fn spec_focus(&self) -> Focus {
        self.focus
    }

    pub fn focus(&self) -> (r: Focus)
        ensures
            r == self.spec_focus(),
    {
        self.focus
    }

    /// Reacts to a key, given what the text boxes hold: aborting closes the
    /// popup, the focus key moves the focus, confirming connects if both
    /// the name and the domain are filled in. Other keys are left for the
    /// focused text box (`Unhandled`).
    pub fn handle_input_event(&mut self, keys: &KeyMatches, name: &str, domain: &str) -> (r: ConnectResult)
        ensures
            keys.abort ==> r is Close && *final(self) == *old(self),
            !keys.abort && keys.focus ==> r is Handled && final(self).spec_focus() == old(self).spec_focus().advance_spec(),
            !keys.abort && !keys.focus && keys.confirm && name@.len() > 0 && domain@.len() > 0 ==> (r matches ConnectResult::Connect(id) && id.domain@ == domain@ && id.name@ == name@) && *final(self) == *old(self),
            !keys.abort && !keys.focus && !(keys.confirm && name@.len() > 0 && domain@.len() > 0) ==> r is Unhandled && *final(self) == *old(self),
    {
        if keys.abort {
            return ConnectResult::Close;
        }
        if keys.focus {
            self.focus = self.focus.advance();
            return ConnectResult::Handled;
        }
        if keys.confirm {
            let id = RoomIdentifier { domain: String::from_str(domain), name: String::from_str(name) };
            if !id.domain.as_str().is_empty() && !id.name.as_str().is_empty() {
                return ConnectResult::Connect(id);
            }
        }
        ConnectResult::Unhandled
    }
}

/// The "Delete room" popup for a room; the text box in which its name is
/// entered belongs to the caller.
pub struct DeleteState {
    id: RoomIdentifier,
}

impl DeleteState {
    pub fn new(id: RoomIdentifier) -> (r: Self)
        ensures
            r.spec_id() == id,
    {
        DeleteState { id }
    }

    pub closed spec fn spec_id(&self) -> RoomIdentifier {
        self.id
    }

    /// The room to delete.
    pub fn id(&self) -> (r: &RoomIdentifier)
        ensures
            *r == self.spec_id(),
    {
        &self.id
    }

    /// Reacts to a key, given the entered text: aborting closes the popup;
    /// confirming deletes the room if the text is exactly its name. Other
    /// keys are left for the text box (`Unhandled`).
    pub fn handle_input_event(&self, keys: &KeyMatches, entered: &str) -> (r: DeleteResult)
        ensures
            keys.abort ==> r is Close,
            !keys.abort && keys.confirm && entered@ == self.spec_id().name@ ==> r == DeleteResult::Delete(self.spec_id()),
            !keys.abort && !(keys.confirm && entered@ == self.spec_id().name@) ==> r is Unhandled,
    {
        if keys.abort {
            return DeleteResult::Close;
        }
        if keys.confirm {
            let name = String::from_str(entered);
            if name == self.id.name {
                return DeleteResult::Delete(self.id.clone());
            }
        }
        DeleteResult::Unhandled
    }
}

/// How the room list is sorted, as configured.
#[derive(Debug, Clone, Copy, PartialEq, Eq, Structural)]
pub enum RoomsSortOrder {
    Alphabet,
    Importance,
}

/// How the room list is sorted: by name, or connected rooms and rooms with
/// unseen messages first.
#[derive(Debug, Clone, Copy, PartialEq, Eq, Structural)]
pub enum Order {
    Alphabet,
    Importance,
}

impl Order {
    pub open spec fn from_rooms_sort_order_spec(order: RoomsSortOrder) -> Order {
        match order {
            RoomsSortOrder::Alphabet => Order::Alphabet,
            RoomsSortOrder::Importance => Order::Importance,
        }
    }

    pub open spec fn toggled_spec(self) -> Order {
        match self {
            Order::Alphabet => Order::Importance,
            Order::Importance => Order::Alphabet,
        }
    }

    pub fn from_rooms_sort_order(order: RoomsSortOrder) -> (r: Self)
        ensures
            r == Order::from_rooms_sort_order_spec(order),
    {
        match order {
            RoomsSortOrder::Alphabet => Self::Alphabet,
            RoomsSortOrder::Importance => Self::Importance,
        }
    }

    /// The other order.
    pub fn toggled(self) -> (r: Self)
        ensures
            r == self.toggled_spec(),
    {
        match self {
            Self::Alphabet => Self::Importance,
            Self::Importance => Self::Alphabet,
        }
    }
}

/// A session in a room: whether it is a bot, and whether its nick is empty.
#[derive(Debug, Clone, Copy, PartialEq, Eq, Structural)]
pub struct Session {
    pub is_bot: bool,
    pub nick_empty: bool,
}

/// The state of the connection to a room.
#[derive(Debug)]
pub enum RoomState {
    /// Waiting to connect again.
    Disconnected,
    Connecting,
    /// Connected and joining; `bounce` where the room asks for a password.
    Joining { bounce: bool },
    /// Joined, with one's own session and the other sessions in the room.
    Joined { own: Session, listing: Vec<Session> },
    Stopped,
}

/// How many of `sessions` are bots (or not) with empty (or non-empty) nicks.
pub open spec fn count_sessions(sessions: Seq<Session>, bot: bool, nick_empty: bool) -> nat
    decreases sessions.len(),
{
    if sessions.len() == 0 {
        0
    } else {
        count_sessions(sessions.drop_last(), bot, nick_empty) + if sessions.last().is_bot == bot
            && sessions.last().nick_empty == nick_empty {
            1nat
        } else {
            0nat
        }
    }
}

/// `acc` followed by `n` and `suffix`, space-separated, where `n > 0`.
pub open spec fn with_count(acc: Seq<char>, n: nat, suffix: char) -> Seq<char> {
    if n == 0 {
        acc
    } else if acc.len() == 0 {
        spec_decimal(n).push(suffix)
    } else {
        acc + seq![' '] + spec_decimal(n).push(suffix)
    }
}

/// The counts of people, bots, lurkers and nameless bots in `sessions`, as
/// in `3p 1b 2l`, leaving out counts of zero.
pub open spec fn pbln_text(sessions: Seq<Session>) -> Seq<char> {
    let p = count_sessions(sessions, false, false);
    let b = count_sessions(sessions, true, false);
    let l = count_sessions(sessions, false, true);
    let n = count_sessions(sessions, true, true);
    with_count(with_count(with_count(with_count(Seq::empty(), p, 'p'), b, 'b'), l, 'l'), n, 'n')
}

fn append_count(out: &mut String, n: usize, suffix: char)
    ensures
        final(out)@ == with_count(old(out)@, n as nat, suffix),
{
    if n == 0 {
        return;
    }
    let mut part: Vec<char> = Vec::new();
    if out.as_str().unicode_len() > 0 {
        part.push(' ');
    }
    let digits = decimal(n);
    out.append(part_str(&part).as_str());
    out.append(digits.as_str());
    let mut tail: Vec<char> = Vec::new();
    tail.push(suffix);
    out.append(part_str(&tail).as_str());
    assert(out@ =~= with_count(old(out)@, n as nat, suffix));
}

fn part_str(chars: &Vec<char>) -> (r: String)
    ensures
        r@ == chars@,
{
    let r = crate::text::string_from_chars(chars.as_slice(), 0, chars.len());
    assert(chars@.subrange(0, chars@.len() as int) =~= chars@);
    r
}

/// Counts the people (`p`), bots (`b`), lurkers (`l`, no nick) and nameless
/// bots (`n`) among the sessions of a room, oneself included.
pub fn format_pbln(own: &Session, listing: &Vec<Session>) -> (r: String)
    requires
        listing@.len() < usize::MAX,
    ensures
        r@ == pbln_text(listing@.push(*own)),
{
    let mut p: usize = 0;
    let mut b: usize = 0;
    let mut l: usize = 0;
    let mut n: usize = 0;
    let mut i: usize = 0;
    let ghost all = listing@.push(*own);
    while i <= listing.len()
        invariant
            i <= listing@.len() + 1,
            all == listing@.push(*own),
            listing@.len() < usize::MAX,
            p == count_sessions(all.take(i as int), false, false),
            b == count_sessions(all.take(i as int), true, false),
            l == count_sessions(all.take(i as int), false, true),
            n == count_sessions(all.take(i as int), true, true),
            p + b + l + n == i,
        decreases listing@.len() + 1 - i,
    {
        let s = if i < listing.len() {
            listing[i]
        } else {
            *own
        };
        assert(all.take(i + 1).drop_last() =~= all.take(i as int));
        assert(all.take(i + 1).last() == s);
        if s.is_bot && s.nick_empty {
            n += 1;
        } else if s.is_bot {
            b += 1;
        } else if s.nick_empty {
            l += 1;
        } else {
            p += 1;
        }
        i += 1;
    }
    assert(all.take(all.len() as int) =~= all);
    let mut out = String::new();
    append_count(&mut out, p, 'p');
    append_count(&mut out, b, 'b');
    append_count(&mut out, l, 'l');
    append_count(&mut out, n, 'n');
    out
}

/// The short description of a room's state in the room list: nothing for
/// rooms without a connection, else `waiting`, `connecting`, `auth
/// required`, `joining`, or who is in the room.
pub open spec fn room_state_text(state: Option<&RoomState>) -> Option<Seq<char>> {
    match state {
        None => None,
        Some(RoomState::Stopped) => None,
        Some(RoomState::Disconnected) => Some("waiting"@),
        Some(RoomState::Connecting) => Some("connecting"@),
        Some(RoomState::Joining { bounce }) => if *bounce {
            Some("auth required"@)
        } else {
            Some("joining"@)
        },
        Some(RoomState::Joined { own, listing }) => Some(pbln_text(listing@.push(*own))),
    }
}

pub fn format_room_state(state: Option<&RoomState>) -> (r: Option<String>)
    requires
        state matches Some(RoomState::Joined { listing, .. }) ==> listing@.len() < usize::MAX,
    ensures
        match r {
            Some(s) => room_state_text(state) == Some(s@),
            None => room_state_text(state) is None,
        },
{
    match state {
        None => None,
        Some(RoomState::Stopped) => None,
        Some(RoomState::Disconnected) => Some(String::from_str("waiting")),
        Some(RoomState::Connecting) => Some(String::from_str("connecting")),
        Some(RoomState::Joining { bounce }) => if *bounce {
            Some(String::from_str("auth required"))
        } else {
            Some(String::from_str("joining"))
        },
        Some(RoomState::Joined { own, listing }) => Some(format_pbln(own, listing)),
    }
}

/// The number of unseen messages, unless it is zero.
pub fn format_unseen_msgs(unseen: usize) -> (r: Option<String>)
    ensures
        match r {
            Some(s) => unseen > 0 && s@ == spec_decimal(unseen as nat),
            None => unseen == 0,
        },
{
    if unseen == 0 {
        None
    } else {
        Some(decimal(unseen))
    }
}

/// How a piece of text in the room list is emphasized.
#[derive(Debug, Clone, Copy, PartialEq, Eq, Structural)]
pub enum Tone {
    Plain,
    /// Headings.
    Bold,
    /// Counts of unseen messages.
    Unseen,
    /// The domain of a room.
    Domain,
    /// The name of a room.
    Room,
    /// A nick, in its own colour.
    Nick,
}

/// The pieces of `info`, without their emphasis.
pub open spec fn texts(info: Seq<(String, Tone)>) -> Seq<Seq<char>> {
    info.map_values(|p: (String, Tone)| p.0@)
}

/// The pieces' emphasis.
pub open spec fn tones(info: Seq<(String, Tone)>) -> Seq<Tone> {
    info.map_values(|p: (String, Tone)| p.1)
}

fn piece(text: &str, tone: Tone) -> (r: (String, Tone))
    ensures
        r.0@ == text@,
        r.1 == tone,
{
    (String::from_str(text), tone)
}

/// The pieces that follow a room in the room list: its state and its
/// number of unseen messages (emphasized) in parentheses, or nothing where
/// there is neither; as texts and as tones.
pub open spec fn info_pieces(state: Option<&RoomState>, unseen: usize) -> (Seq<Seq<char>>, Seq<Tone>) {
    let u = if unseen > 0 {
        Some(spec_decimal(unseen as nat))
    } else {
        None
    };
    match (room_state_text(state), u) {
        (None, None) => (seq![], seq![]),
        (None, Some(u)) => (seq![" ("@, u, ")"@], seq![Tone::Plain, Tone::Unseen, Tone::Plain]),
        (Some(s), None) => (seq![" ("@, s, ")"@], seq![Tone::Plain, Tone::Plain, Tone::Plain]),
        (Some(s), Some(u)) => (
            seq![" ("@, s, ", "@, u, ")"@],
            seq![Tone::Plain, Tone::Plain, Tone::Plain, Tone::Unseen, Tone::Plain],
        ),
    }
}

/// What follows a room's name in the room list: its state and its number of
/// unseen messages in parentheses, as in ` (joining, 3)`, or nothing.
pub fn format_room_info(state: Option<&RoomState>, unseen: usize) -> (r: Vec<(String, Tone)>)
    requires
        state matches Some(RoomState::Joined { listing, .. }) ==> listing@.len() < usize::MAX,
    ensures
        (texts(r@), tones(r@)) == info_pieces(state, unseen),
{
    let state = format_room_state(state);
    let unseen = format_unseen_msgs(unseen);
    let mut out: Vec<(String, Tone)> = Vec::new();
    match (state, unseen) {
        (None, None) => {},
        (None, Some(u)) => {
            out.push(piece(" (", Tone::Plain));
            out.push((u, Tone::Unseen));
            out.push(piece(")", Tone::Plain));
        },
        (Some(s), None) => {
            out.push(piece(" (", Tone::Plain));
            out.push((s, Tone::Plain));
            out.push(piece(")", Tone::Plain));
        },
        (Some(s), Some(u)) => {
            out.push(piece(" (", Tone::Plain));
            out.push((s, Tone::Plain));
            out.push(piece(", ", Tone::Plain));
            out.push((u, Tone::Unseen));
            out.push(piece(")", Tone::Plain));
        },
    }
    out
}

/// The heading of the room list, `Rooms (c/t)` with `c` of `t` rooms
/// connected, and the unseen messages of all rooms where there are any, as
/// in `Rooms (2/5, 17)`; with the window title, `Rooms` or `Rooms (17)`.
pub fn rooms_heading(connected: usize, total: usize, total_unseen: usize) -> (r: (Vec<(String, Tone)>, String))
    ensures
        total_unseen > 0 ==> texts(r.0@) == seq![
            "Rooms"@,
            " ("@ + spec_decimal(connected as nat) + "/"@ + spec_decimal(total as nat) + ", "@,
            spec_decimal(total_unseen as nat),
            ")"@,
        ] && tones(r.0@) == seq![Tone::Bold, Tone::Plain, Tone::Unseen, Tone::Plain]
            && r.1@ == "Rooms ("@ + spec_decimal(total_unseen as nat) + ")"@,
        total_unseen == 0 ==> texts(r.0@) == seq![
            "Rooms"@,
            " ("@ + spec_decimal(connected as nat) + "/"@ + spec_decimal(total as nat) + ")"@,
        ] && tones(r.0@) == seq![Tone::Bold, Tone::Plain] && r.1@ == "Rooms"@,
{
    let mut heading: Vec<(String, Tone)> = Vec::new();
    heading.push(piece("Rooms", Tone::Bold));
    let mut counts = String::from_str(" (");
    counts.append(decimal(connected).as_str());
    counts.append("/");
    counts.append(decimal(total).as_str());
    let mut title = String::from_str("Rooms");
    if total_unseen > 0 {
        counts.append(", ");
        heading.push((counts, Tone::Plain));
        heading.push((decimal(total_unseen), Tone::Unseen));
        heading.push(piece(")", Tone::Plain));
        title.append(" (");
        title.append(decimal(total_unseen).as_str());
        title.append(")");
        proof {
            reveal_strlit("Rooms");
            reveal_strlit(" (");
            reveal_strlit("Rooms (");
        }
        assert("Rooms"@ + " ("@ =~= "Rooms ("@);
        assert(title@ =~= "Rooms ("@ + spec_decimal(total_unseen as nat) + ")"@);
    } else {
        counts.append(")");
        heading.push((counts, Tone::Plain));
    }
    (heading, title)
}

/// `a` comes before `b` by domain, then by name.
pub open spec fn id_less(a: RoomIdentifier, b: RoomIdentifier) -> bool {
    lex_less(a.domain@, b.domain@) || (a.domain@ == b.domain@ && lex_less(a.name@, b.name@))
}

/// A row of the room list: the room, its connection (if it has one) and its
/// number of unseen messages.
#[derive(Debug)]
pub struct RoomRow {
    pub id: RoomIdentifier,
    pub state: Option<RoomState>,
    pub unseen: usize,
}

/// Row `a` comes strictly before row `b` in `order`: by room, or first the
/// rooms with a connection, among those first the rooms with unseen
/// messages, and then by room.
pub open spec fn row_before(order: Order, a: RoomRow, b: RoomRow) -> bool {
    match order {
        Order::Alphabet => id_less(a.id, b.id),
        Order::Importance => {
            let (a0, b0) = (a.state is None, b.state is None);
            let (a1, b1) = (a.unseen == 0, b.unseen == 0);
            (!a0 && b0) || (a0 == b0 && ((!a1 && b1) || (a1 == b1 && id_less(a.id, b.id))))
        },
    }
}

/// No row of `rows` comes strictly before an earlier one.
pub open spec fn rows_sorted(order: Order, rows: Seq<RoomRow>) -> bool {
    forall|i: int, j: int| 0 <= i < j < rows.len() ==> !row_before(order, #[trigger] rows[j], #[trigger] rows[i])
}

/// By importance, among rooms alike in having a connection or not, a room
/// with unseen messages comes before one without; and a room with a
/// connection comes before one without.
pub proof fn lemma_importance_unseen_first(a: RoomRow, b: RoomRow)
    ensures
        (a.state is None) == (b.state is None) && a.unseen > 0 && b.unseen == 0 ==> row_before(
            Order::Importance,
            a,
            b,
        ),
        a.state is Some && b.state is None ==> row_before(Order::Importance, a, b),
{
}

/// In a room list sorted by importance, no room without unseen messages
/// comes before a room with unseen messages that is alike in having a
/// connection or not, and no room without a connection comes before one
/// with one.
pub proof fn lemma_sorted_importance(rows: Seq<RoomRow>)
    requires
        rows_sorted(Order::Importance, rows),
    ensures
        forall|i: int, j: int|
            0 <= i < j < rows.len() && (#[trigger] rows[i].state is None) == (#[trigger] rows[j].state is None)
                && rows[i].unseen == 0 ==> rows[j].unseen == 0,
        forall|i: int, j: int|
            0 <= i < j < rows.len() && (#[trigger] rows[i]).state is None ==> (#[trigger] rows[j]).state is None,
{
    assert forall|i: int, j: int|
        0 <= i < j < rows.len() && (#[trigger] rows[i].state is None) == (#[trigger] rows[j].state is None)
            && rows[i].unseen == 0 implies rows[j].unseen == 0 by {
        lemma_importance_unseen_first(rows[j], rows[i]);
    }
    assert forall|i: int, j: int|
        0 <= i < j < rows.len() && (#[trigger] rows[i]).state is None implies (#[trigger] rows[j]).state is None by {
        lemma_importance_unseen_first(rows[j], rows[i]);
    }
}

proof fn lemma_row_before_order(order: Order, a: RoomRow, b: RoomRow, c: RoomRow)
    ensures
        row_before(order, a, b) ==> !row_before(order, b, a),
        row_before(order, a, b) && row_before(order, b, c) ==> row_before(order, a, c),
{
    lemma_lex_less_asymmetric(a.id.domain@, b.id.domain@);
    lemma_lex_less_asymmetric(a.id.name@, b.id.name@);
    lemma_lex_less_transitive(a.id.domain@, b.id.domain@, c.id.domain@);
    lemma_lex_less_transitive(a.id.name@, b.id.name@, c.id.name@);
}

fn row_less(order: Order, a: &RoomRow, b: &RoomRow) -> (r: bool)
    ensures
        r == row_before(order, *a, *b),
{
    let ids = str_less(a.id.domain.as_str(), b.id.domain.as_str()) || (a.id.domain == b.id.domain
        && str_less(a.id.name.as_str(), b.id.name.as_str()));
    match order {
        Order::Alphabet => ids,
        Order::Importance => {
            let a0 = a.state.is_none();
            let b0 = b.state.is_none();
            let a1 = a.unseen == 0;
            let b1 = b.unseen == 0;
            (!a0 && b0) || (a0 == b0 && ((!a1 && b1) || (a1 == b1 && ids)))
        },
    }
}

/// Sorts the rows of the room list in `order`.
pub fn sort_rooms(rooms: &mut Vec<RoomRow>, order: Order)
    ensures
        rows_sorted(order, final(rooms)@),
        final(rooms)@.to_multiset() == old(rooms)@.to_multiset(),
{
    let mut rest: Vec<RoomRow> = Vec::new();
    std::mem::swap(&mut rest, rooms);
    let ghost all = rest@;
    let mut out: Vec<RoomRow> = Vec::new();
    while rest.len() > 0
        invariant
            rows_sorted(order, out@),
            out@.to_multiset().add(rest@.to_multiset()) == all.to_multiset(),
        decreases rest@.len(),
    {
        let ghost before_pop = rest@;
        let r = rest.pop().unwrap();
        assert(before_pop =~= rest@.push(r));
        let mut i: usize = 0;
        while i < out.len() && !row_less(order, &r, &out[i])
            invariant
                i <= out@.len(),
                forall|j: int| 0 <= j < i ==> !row_before(order, r, #[trigger] out@[j]),
            decreases out@.len() - i,
        {
            i += 1;
        }
        let ghost old_out = out@;
        out.insert(i, r);
        assert(rows_sorted(order, out@)) by {
            assert forall|a: int, b: int| 0 <= a < b < out@.len() implies !row_before(
                order,
                #[trigger] out@[b],
                #[trigger] out@[a],
            ) by {
                if a < i && b > i {
                    lemma_row_before_order(order, old_out[b - 1], old_out[a], r);
                    assert(!row_before(order, r, old_out[a]));
                } else if a == i && b > i {
                    lemma_row_before_order(order, old_out[b - 1], r, old_out[i as int]);
                    if b - 1 > i {
                        assert(!row_before(order, old_out[b - 1], old_out[i as int]));
                    }
                    assert(row_before(order, r, old_out[i as int]));
                }
            }
        }
    }
    proof {
        assert(rest@.to_multiset() =~= vstd::multiset::Multiset::empty());
    }
    *rooms = out;
}

/// The pieces of a row of the room list: the domain, the room's name after
/// `&`, and what is known of the room.
pub open spec fn row_pieces(row: RoomRow) -> (Seq<Seq<char>>, Seq<Tone>) {
    let info = info_pieces(
        match row.state {
            Some(s) => Some(&s),
            None => None,
        },
        row.unseen,
    );
    (seq![row.id.domain@ + " "@, "&"@ + row.id.name@] + info.0, seq![Tone::Domain, Tone::Room] + info.1)
}

/// The rows of the room list: sorts `rooms` in `order` and gives, in that
/// order, a list of the rooms to select from and the pieces of each row.
pub fn render_rows(rooms: &mut Vec<RoomRow>, order: Order) -> (r: (ListBuilder<RoomIdentifier>, Vec<Vec<(String, Tone)>>))
    requires
        forall|i: int|
            0 <= i < old(rooms)@.len() ==> ((#[trigger] old(rooms)@[i]).state matches Some(RoomState::Joined { listing, .. })
                ==> listing@.len() < usize::MAX),
    ensures
        rows_sorted(order, final(rooms)@),
        final(rooms)@.to_multiset() == old(rooms)@.to_multiset(),
        r.0.spec_rows() == final(rooms)@.map_values(|row: RoomRow| Some(row.id)),
        r.1@.len() == final(rooms)@.len(),
        forall|i: int|
            0 <= i < r.1@.len() ==> (texts((#[trigger] r.1@[i])@), tones(r.1@[i]@)) == row_pieces(
                final(rooms)@[i],
            ),
{
    let ghost before = rooms@;
    sort_rooms(rooms, order);
    proof {
        assert forall|i: int|
            0 <= i < rooms@.len() implies ((#[trigger] rooms@[i]).state matches Some(RoomState::Joined { listing, .. })
                ==> listing@.len() < usize::MAX) by {
            assert(rooms@.to_multiset().count(rooms@[i]) > 0);
            assert(before.to_multiset().count(rooms@[i]) > 0);
            assert(before.contains(rooms@[i]));
        }
    }
    let mut builder: ListBuilder<RoomIdentifier> = ListBuilder::new();
    let mut rows: Vec<Vec<(String, Tone)>> = Vec::new();
    let mut i: usize = 0;
    while i < rooms.len()
        invariant
            i <= rooms@.len(),
            forall|k: int|
                0 <= k < rooms@.len() ==> ((#[trigger] rooms@[k]).state matches Some(RoomState::Joined { listing, .. })
                    ==> listing@.len() < usize::MAX),
            builder.spec_rows() == rooms@.take(i as int).map_values(|row: RoomRow| Some(row.id)),
            rows@.len() == i,
            forall|k: int| 0 <= k < i ==> (texts((#[trigger] rows@[k])@), tones(rows@[k]@)) == row_pieces(rooms@[k]),
        decreases rooms@.len() - i,
    {
        let row = &rooms[i];
        let mut pieces: Vec<(String, Tone)> = Vec::new();
        let mut domain = row.id.domain.clone();
        domain.append(" ");
        pieces.push((domain, Tone::Domain));
        let mut name = String::from_str("&");
        name.append(row.id.name.as_str());
        pieces.push((name, Tone::Room));
        let mut info = format_room_info(row.state.as_ref(), row.unseen);
        let ghost first = pieces@;
        pieces.append(&mut info);
        proof {
            assert(texts(pieces@) =~= texts(first) + texts(pieces@.skip(2)));
            assert(pieces@.skip(2) =~= pieces@.subrange(2, pieces@.len() as int));
            assert(texts(pieces@) =~= row_pieces(rooms@[i as int]).0);
            assert(tones(pieces@) =~= row_pieces(rooms@[i as int]).1);
        }
        builder.add_sel(row.id.clone());
        rows.push(pieces);
        proof {
            assert(rooms@.take(i + 1).map_values(|row: RoomRow| Some(row.id)) =~= rooms@.take(i as int).map_values(
                |row: RoomRow| Some(row.id),
            ).push(Some(rooms@[i as int].id)));
        }
        i += 1;
    }
    assert(rooms@.take(rooms@.len() as int) =~= rooms@);
    (builder, rows)
}

/// A room as plain text: its domain and its name.
pub open spec fn room_key(r: RoomIdentifier) -> (Seq<char>, Seq<char>) {
    (r.domain@, r.name@)
}

/// The rooms among `s`, as plain text.
pub open spec fn keys_of(s: Seq<RoomIdentifier>) -> Set<(Seq<char>, Seq<char>)> {
    Set::new(|k: (Seq<char>, Seq<char>)| exists|i: int| 0 <= i < s.len() && room_key(#[trigger] s[i]) == k)
}

/// No room occurs twice in `s`.
pub open spec fn unique_keys(s: Seq<RoomIdentifier>) -> bool {
    forall|i: int, j: int| 0 <= i < j < s.len() ==> room_key(#[trigger] s[i]) != room_key(#[trigger] s[j])
}

/// The rooms that must be held: those in the vault, those in the config and
/// the room being shown.
pub open spec fn required_rooms(
    from_db: Seq<RoomIdentifier>,
    from_config: Seq<RoomIdentifier>,
    shown: Option<RoomIdentifier>,
) -> Set<(Seq<char>, Seq<char>)> {
    let both = keys_of(from_db).union(keys_of(from_config));
    match shown {
        Some(s) => both.insert(room_key(s)),
        None => both,
    }
}

/// Whether `a` and `b` name the same room.
fn same_room(a: &RoomIdentifier, b: &RoomIdentifier) -> (r: bool)
    ensures
        r == (room_key(*a) == room_key(*b)),
{
    a.domain == b.domain && a.name == b.name
}

/// Whether the room `id` is among `ids`.
fn holds_room(ids: &Vec<RoomIdentifier>, id: &RoomIdentifier) -> (r: bool)
    ensures
        r == keys_of(ids@).contains(room_key(*id)),
{
    let mut i: usize = 0;
    while i < ids.len()
        invariant
            i <= ids@.len(),
            forall|j: int| 0 <= j < i ==> room_key(#[trigger] ids@[j]) != room_key(*id),
        decreases ids@.len() - i,
    {
        if same_room(&ids[i], id) {
            assert(room_key(ids@[i as int]) == room_key(*id));
            return true;
        }
        i += 1;
    }
    false
}

/// Adds `id` to `ids` unless the room is there already.
fn add_room(ids: &mut Vec<RoomIdentifier>, id: &RoomIdentifier)
    requires
        unique_keys(old(ids)@),
    ensures
        keys_of(final(ids)@) == keys_of(old(ids)@).insert(room_key(*id)),
        unique_keys(final(ids)@),
{
    let ghost before = ids@;
    if !holds_room(ids, id) {
        ids.push(id.clone());
        assert(room_key(ids@[before.len() as int]) == room_key(*id));
        assert forall|k: (Seq<char>, Seq<char>)| #[trigger] keys_of(before).contains(k) implies keys_of(ids@).contains(k) by {
            let i = choose|i: int| 0 <= i < before.len() && room_key(#[trigger] before[i]) == k;
            assert(ids@[i] == before[i]);
        }
        assert forall|k: (Seq<char>, Seq<char>)| #[trigger] keys_of(ids@).contains(k) implies keys_of(before).insert(
            room_key(*id),
        ).contains(k) by {
            let i = choose|i: int| 0 <= i < ids@.len() && room_key(#[trigger] ids@[i]) == k;
            if i < before.len() {
                assert(before[i] == ids@[i]);
            }
        }
        assert(keys_of(ids@) =~= keys_of(before).insert(room_key(*id)));
    } else {
        assert(keys_of(ids@) =~= keys_of(before).insert(room_key(*id)));
    }
}

/// Adds each room of `from` to `ids` unless it is there already.
fn add_rooms(ids: &mut Vec<RoomIdentifier>, from: &Vec<RoomIdentifier>)
    requires
        unique_keys(old(ids)@),
    ensures
        keys_of(final(ids)@) == keys_of(old(ids)@).union(keys_of(from@)),
        unique_keys(final(ids)@),
{
    let mut n: usize = 0;
    assert(keys_of(from@.take(0)) =~= Set::empty());
    while n < from.len()
        invariant
            n <= from@.len(),
            keys_of(ids@) == keys_of(old(ids)@).union(keys_of(from@.take(n as int))),
            unique_keys(ids@),
        decreases from@.len() - n,
    {
        add_room(ids, &from[n]);
        proof {
            let t = from@.take(n + 1);
            assert(t[n as int] == from@[n as int]);
            assert forall|k: (Seq<char>, Seq<char>)| #[trigger] keys_of(t).contains(k) implies keys_of(
                from@.take(n as int),
            ).insert(room_key(from@[n as int])).contains(k) by {
                let i = choose|i: int| 0 <= i < t.len() && room_key(#[trigger] t[i]) == k;
                if i < n {
                    assert(from@.take(n as int)[i] == t[i]);
                }
            }
            assert forall|k: (Seq<char>, Seq<char>)| #[trigger] keys_of(from@.take(n as int)).contains(k) implies keys_of(
                t,
            ).contains(k) by {
                let i = choose|i: int| 0 <= i < n && room_key(#[trigger] from@.take(n as int)[i]) == k;
                assert(t[i] == from@.take(n as int)[i]);
            }
            assert(keys_of(t) =~= keys_of(from@.take(n as int)).insert(room_key(from@[n as int])));
            assert(keys_of(ids@) =~= keys_of(old(ids)@).union(keys_of(t)));
        }
        n += 1;
    }
    assert(from@.take(from@.len() as int) =~= from@);
}

/// The rooms held, as plain text.
pub open spec fn held_keys(rooms: Seq<(RoomIdentifier, bool)>) -> Set<(Seq<char>, Seq<char>)> {
    Set::new(|k: (Seq<char>, Seq<char>)| exists|i: int| 0 <= i < rooms.len() && room_key(#[trigger] rooms[i].0) == k)
}

/// Keeps the rooms held in step with the vault and the config: of `rooms`
/// (each with whether its connection has stopped), those that still run or
/// must be held stay (the first result, one flag per room), and the rooms
/// that must be held but are not are added (the second result, each once).
/// The rooms that must be held are those in the vault, those in the config
/// and the room being shown.
pub fn stabilize_rooms(
    rooms: &Vec<(RoomIdentifier, bool)>,
    from_db: &Vec<RoomIdentifier>,
    from_config: &Vec<RoomIdentifier>,
    shown: Option<&RoomIdentifier>,
) -> (r: (Vec<bool>, Vec<RoomIdentifier>))
    ensures
        ({
            let required = required_rooms(
                from_db@,
                from_config@,
                match shown {
                    Some(s) => Some(*s),
                    None => None,
                },
            );
            &&& r.0@.len() == rooms@.len()
            &&& forall|i: int|
                0 <= i < rooms@.len() ==> #[trigger] r.0@[i] == (!rooms@[i].1 || required.contains(
                    room_key(rooms@[i].0),
                ))
            &&& keys_of(r.1@) == required.difference(held_keys(rooms@))
            &&& unique_keys(r.1@)
        }),
{
    let ghost sh = match shown {
        Some(s) => Some(*s),
        None => None,
    };
    let ghost required = required_rooms(from_db@, from_config@, sh);
    let mut all: Vec<RoomIdentifier> = Vec::new();
    assert(keys_of(all@) =~= Set::empty());
    add_rooms(&mut all, from_db);
    add_rooms(&mut all, from_config);
    if let Some(s) = shown {
        add_room(&mut all, s);
    }
    assert(keys_of(all@) =~= required);
    let mut held: Vec<RoomIdentifier> = Vec::new();
    let mut keep: Vec<bool> = Vec::new();
    let mut i: usize = 0;
    while i < rooms.len()
        invariant
            i <= rooms@.len(),
            held@.len() == i,
            keep@.len() == i,
            forall|j: int| 0 <= j < i ==> #[trigger] held@[j] == rooms@[j].0,
            keys_of(all@) == required,
            unique_keys(all@),
            forall|j: int|
                0 <= j < i ==> #[trigger] keep@[j] == (!rooms@[j].1 || required.contains(room_key(rooms@[j].0))),
        decreases rooms@.len() - i,
    {
        let needed = holds_room(&all, &rooms[i].0);
        keep.push(!rooms[i].1 || needed);
        held.push(rooms[i].0.clone());
        i += 1;
    }
    assert forall|k: (Seq<char>, Seq<char>)| #[trigger] keys_of(held@).contains(k) <==> held_keys(rooms@).contains(k) by {
        if keys_of(held@).contains(k) {
            let m = choose|m: int| 0 <= m < held@.len() && room_key(#[trigger] held@[m]) == k;
            assert(room_key(rooms@[m].0) == k);
        }
        if held_keys(rooms@).contains(k) {
            let m = choose|m: int| 0 <= m < rooms@.len() && room_key(#[trigger] rooms@[m].0) == k;
            assert(room_key(held@[m]) == k);
        }
    }
    assert(keys_of(held@) =~= held_keys(rooms@));
    let mut added: Vec<RoomIdentifier> = Vec::new();
    let mut j: usize = 0;
    assert(keys_of(all@.take(0)) =~= Set::empty());
    assert(keys_of(added@) =~= Set::empty());
    while j < all.len()
        invariant
            j <= all@.len(),
            keys_of(held@) == held_keys(rooms@),
            unique_keys(all@),
            keys_of(added@) == keys_of(all@.take(j as int)).difference(keys_of(held@)),
            unique_keys(added@),
            forall|m: int| 0 <= m < added@.len() ==> exists|n: int| 0 <= n < j && #[trigger] added@[m] == all@[n],
        decreases all@.len() - j,
    {
        let ghost t = all@.take(j + 1);
        proof {
            assert(t[j as int] == all@[j as int]);
            assert forall|k: (Seq<char>, Seq<char>)| #[trigger] keys_of(t).contains(k) <==> keys_of(
                all@.take(j as int),
            ).insert(room_key(all@[j as int])).contains(k) by {
                if keys_of(t).contains(k) {
                    let i = choose|i: int| 0 <= i < t.len() && room_key(#[trigger] t[i]) == k;
                    if i < j {
                        assert(all@.take(j as int)[i] == t[i]);
                    }
                }
                if keys_of(all@.take(j as int)).contains(k) {
                    let i = choose|i: int| 0 <= i < j && room_key(#[trigger] all@.take(j as int)[i]) == k;
                    assert(t[i] == all@.take(j as int)[i]);
                }
            }
            assert(keys_of(t) =~= keys_of(all@.take(j as int)).insert(room_key(all@[j as int])));
        }
        if !holds_room(&held, &all[j]) {
            let ghost before = added@;
            added.push(all[j].clone());
            proof {
                assert(room_key(added@[before.len() as int]) == room_key(all@[j as int]));
                assert forall|a: int, b: int| 0 <= a < b < added@.len() implies room_key(#[trigger] added@[a])
                    != room_key(#[trigger] added@[b]) by {
                    if b == before.len() {
                        let n = choose|n: int| 0 <= n < j && #[trigger] before[a] == all@[n];
                        assert(room_key(all@[n]) != room_key(all@[j as int]));
                    }
                }
                assert forall|m: int| 0 <= m < added@.len() implies exists|n: int|
                    0 <= n < j + 1 && #[trigger] added@[m] == all@[n] by {
                    if m < before.len() {
                        let n = choose|n: int| 0 <= n < j && #[trigger] before[m] == all@[n];
                        assert(added@[m] == all@[n]);
                    } else {
                        assert(added@[m] == all@[j as int]);
                    }
                }
                assert forall|k: (Seq<char>, Seq<char>)| #[trigger] keys_of(added@).contains(k) <==> keys_of(before).insert(
                    room_key(all@[j as int]),
                ).contains(k) by {
                    if keys_of(added@).contains(k) {
                        let m = choose|m: int| 0 <= m < added@.len() && room_key(#[trigger] added@[m]) == k;
                        if m < before.len() {
                            assert(before[m] == added@[m]);
                        }
                    }
                    if keys_of(before).contains(k) {
                        let m = choose|m: int| 0 <= m < before.len() && room_key(#[trigger] before[m]) == k;
                        assert(added@[m] == before[m]);
                    }
                }
                assert(keys_of(added@) =~= keys_of(before).insert(room_key(all@[j as int])));
                assert(keys_of(added@) =~= keys_of(t).difference(keys_of(held@)));
            }
        } else {
            proof {
                assert(keys_of(added@) =~= keys_of(t).difference(keys_of(held@)));
            }
        }
        j += 1;
    }
    assert(all@.take(all@.len() as int) =~= all@);
    (keep, added)
}

/// What the rooms screen shows.
pub enum State {
    ShowList,
    ShowRoom(RoomIdentifier),
    Connect(ConnectState),
    Delete(DeleteState),
}

/// What the caller is to do after a key on the rooms screen.
pub enum RoomsAction {
    NotHandled,
    Handled,
    /// Connect to the room.
    Connect(RoomIdentifier),
    ConnectAll,
    Disconnect(RoomIdentifier),
    DisconnectAll,
    /// Connect to all rooms of the configuration.
    ConnectAutojoin,
    /// Disconnect from the rooms that the configuration does not join on
    /// start.
    DisconnectNonAutojoin,
    /// Forget the room and delete it from the vault.
    Delete(RoomIdentifier),
    /// The key is for the focused text box of the open popup.
    ToEditor,
}

/// The rooms screen: what it shows, the room list and how it is sorted.
pub struct Rooms {
    state: State,
    list: ListState<RoomIdentifier>,
    order: Order,
}

/// Whether state `s` shows the room list.
pub open spec fn shows_list(s: State) -> bool {
    s is ShowList
}

/// How the room list reacts to a key: confirming opens the selected room,
/// list keys move in the list, and the other keys connect, disconnect, open
/// the popups to add or delete a room, or change the order.
pub open spec fn showlist_reaction(old: Rooms, new: Rooms, keys: KeyMatches, r: RoomsAction) -> bool {
    let old_list = old.spec_list();
    let sel = old_list.spec_cursor_id();
    if keys.confirm {
        &&& r is Handled
        &&& new.spec_list() == old_list
        &&& new.spec_order() == old.spec_order()
        &&& match sel {
            Some(id) => new.spec_state() == State::ShowRoom(id),
            None => new.spec_state() == old.spec_state(),
        }
    } else if is_list_key(keys) {
        &&& r is Handled
        &&& list_key_effect(keys, old_list, new.spec_list())
        &&& new.spec_order() == old.spec_order()
        &&& new.spec_state() == old.spec_state()
    } else {
        &&& new.spec_list() == old_list
        &&& new.spec_order() == if !keys.rooms_connect && !keys.rooms_connect_all
            && !keys.rooms_disconnect && !keys.rooms_disconnect_all && !keys.rooms_connect_autojoin
            && !keys.rooms_disconnect_non_autojoin && !keys.rooms_new && !keys.rooms_delete
            && keys.rooms_change_sort_order {
            old.spec_order().toggled_spec()
        } else {
            old.spec_order()
        }
        &&& if keys.rooms_connect {
            r == match sel {
                Some(id) => RoomsAction::Connect(id),
                None => RoomsAction::Handled,
            } && new.spec_state() == old.spec_state()
        } else if keys.rooms_connect_all {
            r is ConnectAll && new.spec_state() == old.spec_state()
        } else if keys.rooms_disconnect {
            r == match sel {
                Some(id) => RoomsAction::Disconnect(id),
                None => RoomsAction::Handled,
            } && new.spec_state() == old.spec_state()
        } else if keys.rooms_disconnect_all {
            r is DisconnectAll && new.spec_state() == old.spec_state()
        } else if keys.rooms_connect_autojoin {
            r is ConnectAutojoin && new.spec_state() == old.spec_state()
        } else if keys.rooms_disconnect_non_autojoin {
            r is DisconnectNonAutojoin && new.spec_state() == old.spec_state()
        } else if keys.rooms_new {
            r is Handled && (new.spec_state() matches State::Connect(c) && c.spec_focus() == Focus::Name)
        } else if keys.rooms_delete {
            r is Handled && match sel {
                Some(id) => new.spec_state() matches State::Delete(d) && d.spec_id() == id,
                None => new.spec_state() == old.spec_state(),
            }
        } else if keys.rooms_change_sort_order {
            r is Handled && new.spec_state() == old.spec_state()
        } else {
            r is NotHandled && new.spec_state() == old.spec_state()
        }
    }
}

impl Rooms {
    pub closed spec fn spec_state(&self) -> State {
        self.state
    }

    pub closed spec fn spec_list(&self) -> ListState<RoomIdentifier> {
        self.list
    }

    pub closed spec fn spec_order(&self) -> Order {
        self.order
    }

    /// The room list, sorted as configured.
    pub fn new(order: RoomsSortOrder) -> (r: Self)
        ensures
            r.spec_state() is ShowList,
            r.spec_order() == Order::from_rooms_sort_order_spec(order),
            r.spec_list().spec_cursor_idx() is None,
    {
        Rooms { state: State::ShowList, list: ListState::new(), order: Order::from_rooms_sort_order(order) }
    }

    pub fn state(&self) -> (r: &State)
        ensures
            *r == self.spec_state(),
    {
        &self.state
    }

    pub fn order(&self) -> (r: Order)
        ensures
            r == self.spec_order(),
    {
        self.order
    }

    /// The room list's rows are those of `builder`; returns whether each
    /// row is selected.
    pub fn build_list(&mut self, builder: ListBuilder<RoomIdentifier>) -> (r: Vec<bool>)
        ensures
            final(self).spec_state() == old(self).spec_state(),
            final(self).spec_order() == old(self).spec_order(),
            final(self).spec_list().spec_rows() == builder.spec_rows(),
            final(self).spec_list().cursor_on_selectable(),
            final(self).spec_list().spec_cursor_idx() is None <==> none_selectable_in(
                builder.spec_rows(),
                0,
                builder.spec_rows().len() as int,
            ),
            match old(self).spec_list().fixed_cursor_row(builder.spec_rows()) {
                Some(j) => old(self).spec_list().moved_cursor_among(builder.spec_rows(), final(self).spec_list(), Some(j)),
                None => final(self).spec_list().spec_cursor_idx() is None,
            },
            r@.len() == builder.spec_rows().len(),
            forall|i: int|
                0 <= i < r@.len() ==> #[trigger] r@[i] == row_selected(
                    builder.spec_rows()[i],
                    final(self).spec_list().spec_cursor_id(),
                ),
    {
        builder.build(&mut self.list)
    }

    /// Reacts to a key while the room list is shown: confirming opens the
    /// selected room; cursor and scroll keys move in the list; the room
    /// actions apply to the selected room or to all rooms; a new room is
    /// entered in the "Connect to" popup; deleting asks in the "Delete
    /// room" popup; the sort order can be changed.
    pub fn handle_showlist_input_event(&mut self, keys: &KeyMatches) -> (r: RoomsAction)
        ensures
            showlist_reaction(*old(self), *final(self), *keys, r),
    {
        if keys.confirm {
            if let Some(id) = self.list.selected() {
                self.state = State::ShowRoom(id.clone());
            }
            return RoomsAction::Handled;
        }
        if handle_list_input_event(&mut self.list, keys) {
            return RoomsAction::Handled;
        }
        if keys.rooms_connect {
            return match self.list.selected() {
                Some(id) => RoomsAction::Connect(id.clone()),
                None => RoomsAction::Handled,
            };
        }
        if keys.rooms_connect_all {
            return RoomsAction::ConnectAll;
        }
        if keys.rooms_disconnect {
            return match self.list.selected() {
                Some(id) => RoomsAction::Disconnect(id.clone()),
                None => RoomsAction::Handled,
            };
        }
        if keys.rooms_disconnect_all {
            return RoomsAction::DisconnectAll;
        }
        if keys.rooms_connect_autojoin {
            return RoomsAction::ConnectAutojoin;
        }
        if keys.rooms_disconnect_non_autojoin {
            return RoomsAction::DisconnectNonAutojoin;
        }
        if keys.rooms_new {
            self.state = State::Connect(ConnectState::new());
            return RoomsAction::Handled;
        }
        if keys.rooms_delete {
            if let Some(id) = self.list.selected() {
                self.state = State::Delete(DeleteState::new(id.clone()));
            }
            return RoomsAction::Handled;
        }
        if keys.rooms_change_sort_order {
            self.order = self.order.toggled();
            return RoomsAction::Handled;
        }
        RoomsAction::NotHandled
    }

    /// Reacts to a key on the rooms screen. With a room shown, `room_handled`
    /// says whether there is such a room and whether it handled the key;
    /// aborting goes back to the list. In a popup, `name` and `domain` are
    /// what its text boxes hold; closing it goes back to the list,
    /// connecting shows the room, deleting shows the list.
    pub fn handle_input_event(&mut self, keys: &KeyMatches, room_handled: Option<bool>, name: &str, domain: &str) -> (r: RoomsAction)
        ensures
            match old(self).spec_state() {
                State::ShowList => showlist_reaction(*old(self), *final(self), *keys, r),
                State::ShowRoom(_) => match room_handled {
                    Some(true) => r is Handled && *final(self) == *old(self),
                    Some(false) => if keys.abort {
                        r is Handled && final(self).spec_state() is ShowList
                    } else {
                        r is NotHandled && *final(self) == *old(self)
                    },
                    None => r is NotHandled && *final(self) == *old(self),
                },
                State::Connect(_) => if keys.abort {
                    r is Handled && final(self).spec_state() is ShowList
                } else if keys.focus {
                    r is Handled
                } else if keys.confirm && name@.len() > 0 && domain@.len() > 0 {
                    (r matches RoomsAction::Connect(id) && id.domain@ == domain@ && id.name@ == name@
                        && final(self).spec_state() == State::ShowRoom(id))
                } else {
                    r is ToEditor && *final(self) == *old(self)
                },
                State::Delete(d) => if keys.abort {
                    r is Handled && final(self).spec_state() is ShowList
                } else if keys.confirm && name@ == d.spec_id().name@ {
                    r == RoomsAction::Delete(d.spec_id()) && final(self).spec_state() is ShowList
                } else {
                    r is ToEditor && *final(self) == *old(self)
                },
            },
            final(self).spec_order() == old(self).spec_order() || shows_list(old(self).spec_state()),
    {
        match self.state {
            State::ShowList => self.handle_showlist_input_event(keys),
            State::ShowRoom(_) => match room_handled {
                Some(true) => RoomsAction::Handled,
                Some(false) => if keys.abort {
                    self.state = State::ShowList;
                    RoomsAction::Handled
                } else {
                    RoomsAction::NotHandled
                },
                None => RoomsAction::NotHandled,
            },
            State::Connect(ref mut connect) => match connect.handle_input_event(keys, name, domain) {
                ConnectResult::Close => {
                    self.state = State::ShowList;
                    RoomsAction::Handled
                },
                ConnectResult::Connect(id) => {
                    self.state = State::ShowRoom(id.clone());
                    RoomsAction::Connect(id)
                },
                ConnectResult::Handled => RoomsAction::Handled,
                ConnectResult::Unhandled => RoomsAction::ToEditor,
            },
            State::Delete(ref delete) => match delete.handle_input_event(keys, name) {
                DeleteResult::Close => {
                    self.state = State::ShowList;
                    RoomsAction::Handled
                },
                DeleteResult::Delete(id) => {
                    self.state = State::ShowList;
                    RoomsAction::Delete(id)
                },
                DeleteResult::Handled => RoomsAction::Handled,
                DeleteResult::Unhandled => RoomsAction::ToEditor,
            },
        }
    }
}

} // verus!
