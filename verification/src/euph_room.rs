//! The connection to a euphoria room: what its events do to the room's
//! state, which messages go into the vault, and which older messages to ask
//! the server for.

use vstd::prelude::*;
use vstd::string::StringExecFns;

verus! {

/// How far the connection to the room is.
#[derive(Debug, Clone, Copy, PartialEq, Eq, Structural)]
pub enum State {
    Disconnected,
    Connecting,
    Connected,
    Stopped,
}

/// A packet from the room, as far as it matters for the vault.
#[derive(Debug, Clone, Copy, PartialEq, Eq, Structural)]
pub enum Packet {
    /// A message was sent (by someone else, or as the reply to one's own).
    Send { id: u64 },
    /// The room's recent messages on joining, of which `last` is the newest.
    Snapshot { last: Option<u64> },
    /// Older messages, from before message `before`.
    LogReply { before: Option<u64> },
    /// Anything else.
    Other,
}

/// What happens to the connection.
#[derive(Debug, Clone, Copy, PartialEq, Eq, Structural)]
pub enum Event {
    Connecting,
    Connected,
    Packet(Packet),
    Disconnected,
    Stopped,
}

/// What is written to the vault for an event.
#[derive(Debug, Clone, Copy, PartialEq, Eq, Structural)]
pub enum VaultWrite {
    Nothing,
    /// Store the sent message, which follows message `prev` (or no message).
    AddMsg { prev: Option<u64> },
    /// Record that the room was joined now and store the snapshot's messages.
    JoinAndAddMsgs,
    /// Store older messages, from before message `before`.
    AddMsgs { before: Option<u64> },
}

/// What the caller is to do for an event.
#[derive(Debug, Clone, Copy, PartialEq, Eq, Structural)]
pub struct Effects {
    /// Start asking for older messages at regular intervals.
    pub start_log_requests: bool,
    /// Stop asking for older messages.
    pub stop_log_requests: bool,
    /// Store the server's cookies for the room's domain.
    pub store_cookies: bool,
    pub write: VaultWrite,
}

/// The room `&rl2dev` on `euphoria.io`, whose history breaks when asked
/// for too much of it.
pub open spec fn is_rl2dev_spec(domain: Seq<char>, name: Seq<char>) -> bool {
    domain == "euphoria.io"@ && name == "rl2dev"@
}

pub fn is_rl2dev(domain: &str, name: &str) -> (r: bool)
    ensures
        r == is_rl2dev_spec(domain@, name@),
{
    String::from_str(domain) == String::from_str("euphoria.io") && String::from_str(name) == String::from_str(
        "rl2dev",
    )
}

/// The request for older messages, given the vault's last span of messages
/// (`None` where it has none; a span from the start of the room's history
/// has no first message): how many messages, and from before which one.
/// None where the history is complete.
pub fn log_request(last_span: Option<Option<u64>>, domain: &str, name: &str) -> (r: Option<(usize, Option<u64>)>)
    ensures
        r == match last_span {
            Some(None) => None,
            Some(Some(before)) => Some((if is_rl2dev_spec(domain@, name@) { 50usize } else { 1000usize }, Some(before))),
            None => Some((if is_rl2dev_spec(domain@, name@) { 50usize } else { 1000usize }, None)),
        },
{
    let before = match last_span {
        Some(None) => {
            return None;
        },
        Some(Some(before)) => Some(before),
        None => None,
    };
    let n: usize = if is_rl2dev(domain, name) {
        50
    } else {
        1000
    };
    Some((n, before))
}

/// A room's connection. Until the first snapshot, `last_msg_id` is `None`;
/// then it holds the newest message seen since (if any). A connection
/// that is lost forgets it.
pub struct Room {
    ephemeral: bool,
    state: State,
    last_msg_id: Option<Option<u64>>,
}

impl Room {
    pub closed spec fn spec_ephemeral(&self) -> bool {
        self.ephemeral
    }

    pub closed spec fn spec_state(&self) -> State {
        self.state
    }

    pub closed spec fn spec_last_msg_id(&self) -> Option<Option<u64>> {
        self.last_msg_id
    }

    /// A room that is not yet connected. It keeps no history where the vault
    /// keeps none, and for `&rl2dev`.
    pub fn new(domain: &str, name: &str, vault_ephemeral: bool) -> (r: Self)
        ensures
            r.spec_ephemeral() == (vault_ephemeral || is_rl2dev_spec(domain@, name@)),
            r.spec_state() == State::Disconnected,
            r.spec_last_msg_id() is None,
    {
        let ephemeral = vault_ephemeral || is_rl2dev(domain, name);
        Room { ephemeral, state: State::Disconnected, last_msg_id: None }
    }

    pub fn state(&self) -> (r: State)
        ensures
            r == self.spec_state(),
    {
        self.state
    }

    /// Whether it keeps no history.
    pub fn ephemeral(&self) -> (r: bool)
        ensures
            r == self.spec_ephemeral(),
    {
        self.ephemeral
    }

    /// Reacts to an event of the connection.
    pub fn handle_event(&mut self, event: Event) -> (r: Effects)
        ensures
            final(self).spec_ephemeral() == old(self).spec_ephemeral(),
            match event {
                Event::Connecting => final(self).spec_state() == State::Connecting
                    && final(self).spec_last_msg_id() is None && r == (Effects {
                    start_log_requests: false,
                    stop_log_requests: true,
                    store_cookies: false,
                    write: VaultWrite::Nothing,
                }),
                Event::Connected => final(self).spec_state() == State::Connected
                    && final(self).spec_last_msg_id() == old(self).spec_last_msg_id() && r == (Effects {
                    start_log_requests: !old(self).spec_ephemeral(),
                    stop_log_requests: false,
                    store_cookies: true,
                    write: VaultWrite::Nothing,
                }),
                Event::Disconnected => final(self).spec_state() == State::Disconnected
                    && final(self).spec_last_msg_id() is None && r == (Effects {
                    start_log_requests: false,
                    stop_log_requests: true,
                    store_cookies: false,
                    write: VaultWrite::Nothing,
                }),
                Event::Stopped => final(self).spec_state() == State::Stopped
                    && final(self).spec_last_msg_id() == old(self).spec_last_msg_id() && r == (Effects {
                    start_log_requests: false,
                    stop_log_requests: false,
                    store_cookies: false,
                    write: VaultWrite::Nothing,
                }),
                Event::Packet(p) => final(self).spec_state() == State::Connected
                    && !r.start_log_requests && !r.stop_log_requests && !r.store_cookies && match p {
                    Packet::Send { id } => match old(self).spec_last_msg_id() {
                        Some(prev) => final(self).spec_last_msg_id() == Some(Some(id))
                            && r.write == (VaultWrite::AddMsg { prev }),
                        None => final(self).spec_last_msg_id() is None && r.write == VaultWrite::Nothing,
                    },
                    Packet::Snapshot { last } => final(self).spec_last_msg_id() == Some(last)
                        && r.write == VaultWrite::JoinAndAddMsgs,
                    Packet::LogReply { before } => final(self).spec_last_msg_id() == old(self).spec_last_msg_id()
                        && r.write == (VaultWrite::AddMsgs { before }),
                    Packet::Other => final(self).spec_last_msg_id() == old(self).spec_last_msg_id()
                        && r.write == VaultWrite::Nothing,
                },
            },
    {
        let nothing = Effects {
            start_log_requests: false,
            stop_log_requests: false,
            store_cookies: false,
            write: VaultWrite::Nothing,
        };
        match event {
            Event::Connecting => {
                self.state = State::Connecting;
                self.last_msg_id = None;
                Effects { stop_log_requests: true, ..nothing }
            },
            Event::Connected => {
                self.state = State::Connected;
                Effects { start_log_requests: !self.ephemeral, store_cookies: true, ..nothing }
            },
            Event::Packet(packet) => {
                self.state = State::Connected;
                Effects { write: self.on_packet(packet), ..nothing }
            },
            Event::Disconnected => {
                self.state = State::Disconnected;
                self.last_msg_id = None;
                Effects { stop_log_requests: true, ..nothing }
            },
            Event::Stopped => {
                self.state = State::Stopped;
                nothing
            },
        }
    }

    /// What a packet writes to the vault: a sent message is stored after the
    /// newest known one, once a snapshot came; a snapshot marks the room as
    /// joined and starts the history anew; older messages are stored.
    fn on_packet(&mut self, packet: Packet) -> (r: VaultWrite)
        ensures
            final(self).spec_ephemeral() == old(self).spec_ephemeral(),
            final(self).spec_state() == old(self).spec_state(),
            match packet {
                Packet::Send { id } => match old(self).spec_last_msg_id() {
                    Some(prev) => final(self).spec_last_msg_id() == Some(Some(id)) && r == (VaultWrite::AddMsg { prev }),
                    None => final(self).spec_last_msg_id() is None && r == VaultWrite::Nothing,
                },
                Packet::Snapshot { last } => final(self).spec_last_msg_id() == Some(last) && r == VaultWrite::JoinAndAddMsgs,
                Packet::LogReply { before } => final(self).spec_last_msg_id() == old(self).spec_last_msg_id()
                    && r == (VaultWrite::AddMsgs { before }),
                Packet::Other => final(self).spec_last_msg_id() == old(self).spec_last_msg_id() && r == VaultWrite::Nothing,
            },
    {
        match packet {
            Packet::Send { id } => match self.last_msg_id {
                Some(prev) => {
                    self.last_msg_id = Some(Some(id));
                    VaultWrite::AddMsg { prev }
                },
                None => VaultWrite::Nothing,
            },
            Packet::Snapshot { last } => {
                self.last_msg_id = Some(last);
                VaultWrite::JoinAndAddMsgs
            },
            Packet::LogReply { before } => VaultWrite::AddMsgs { before },
            Packet::Other => VaultWrite::Nothing,
        }
    }
}

} // verus!
