//! The text of the popups that show a session in detail.

use vstd::prelude::*;
use vstd::string::StringExecFns;

verus! {

/// How a piece of the text is drawn.
#[derive(Debug, Clone, Copy, PartialEq, Eq, Structural)]
pub enum InspectTone {
    /// Bold.
    Heading,
    /// Cyan: the name of a field.
    Field,
    Plain,
    /// Italic and grey: a field without a value.
    Missing,
}

/// A session in full, as the server describes it.
#[derive(Debug)]
pub struct SessionView {
    pub id: String,
    pub name: String,
    pub server_id: String,
    pub server_era: String,
    pub session_id: String,
    pub is_staff: bool,
    pub is_manager: bool,
    pub client_address: Option<String>,
    pub real_client_address: Option<String>,
}

/// A session known only from its change of nick.
#[derive(Debug)]
pub struct NickEvent {
    pub id: String,
    pub to: String,
    pub session_id: String,
}

/// What is known of a session.
#[derive(Debug)]
pub enum SessionInfo {
    Full(SessionView),
    Partial(NickEvent),
}

/// What `format!("{:?}", s)` writes for the string `s`: `s` in double
/// quotes, with special characters escaped.
pub uninterp spec fn debug_text(s: Seq<char>) -> Seq<char>;

/// Formats `s` with `Debug` (`str`'s implementation: quoted, with characters
/// escaped as `char::escape_debug` does); the text depends on `s` alone, so
/// it is named.
#[verifier::external_body]
fn debug_string(s: &str) -> (r: String)
    ensures
        r@ == debug_text(s@),
{
    format!("{:?}", s)
}

/// The pieces of a field: its name and, after a space, its value and a line
/// break.
pub open spec fn field(name: Seq<char>, value: Seq<char>) -> Seq<(Seq<char>, InspectTone)> {
    seq![(name, InspectTone::Field), (" "@ + value + "\n"@, InspectTone::Plain)]
}

/// The pieces of a field that may have no value.
pub open spec fn optional_field(name: Seq<char>, value: Option<String>) -> Seq<(Seq<char>, InspectTone)> {
    match value {
        Some(v) => field(name, v@),
        None => seq![
            (name, InspectTone::Field),
            (" "@, InspectTone::Plain),
            ("none"@, InspectTone::Missing),
            ("\n"@, InspectTone::Plain),
        ],
    }
}

/// The pieces of a yes-or-no field.
pub open spec fn yes_no_field(name: Seq<char>, value: bool) -> Seq<(Seq<char>, InspectTone)> {
    seq![(name, InspectTone::Field), (if value { " yes\n"@ } else { " no\n"@ }, InspectTone::Plain)]
}

/// The fields of a session in full.
pub open spec fn session_view_pieces(s: SessionView) -> Seq<(Seq<char>, InspectTone)> {
    field("id"@, s.id@) + field("name"@, s.name@) + field("name (raw)"@, debug_text(s.name@)) + field(
        "server_id"@,
        s.server_id@,
    ) + field("server_era"@, s.server_era@) + field("session_id"@, s.session_id@) + yes_no_field(
        "is_staff"@,
        s.is_staff,
    ) + yes_no_field("is_manager"@, s.is_manager) + optional_field("client_address"@, s.client_address)
        + optional_field("real_client_address"@, s.real_client_address)
}

/// The fields of a session known from its change of nick.
pub open spec fn nick_event_pieces(e: NickEvent) -> Seq<(Seq<char>, InspectTone)> {
    field("id"@, e.id@) + field("name"@, e.to@) + field("name (raw)"@, debug_text(e.to@)) + field(
        "session_id"@,
        e.session_id@,
    )
}

/// The text of each piece.
pub open spec fn piece_views(v: Seq<(String, InspectTone)>) -> Seq<(Seq<char>, InspectTone)> {
    v.map_values(|p: (String, InspectTone)| (p.0@, p.1))
}

fn push(out: &mut Vec<(String, InspectTone)>, text: &str, tone: InspectTone)
    ensures
        piece_views(final(out)@) == piece_views(old(out)@).push((text@, tone)),
{
    let ghost before = out@;
    out.push((String::from_str(text), tone));
    assert(piece_views(out@) =~= piece_views(before).push((text@, tone)));
}

fn push_field(out: &mut Vec<(String, InspectTone)>, name: &str, value: &str)
    ensures
        piece_views(final(out)@) == piece_views(old(out)@) + field(name@, value@),
{
    let ghost before = piece_views(out@);
    push(out, name, InspectTone::Field);
    let mut line = String::from_str(" ");
    line.append(value);
    line.append("\n");
    let ghost mid = out@;
    out.push((line, InspectTone::Plain));
    assert(piece_views(out@) =~= piece_views(mid).push((line@, InspectTone::Plain)));
    assert(piece_views(out@) =~= before + field(name@, value@));
}

fn push_yes_no(out: &mut Vec<(String, InspectTone)>, name: &str, value: bool)
    ensures
        piece_views(final(out)@) == piece_views(old(out)@) + yes_no_field(name@, value),
{
    let ghost before = piece_views(out@);
    push(out, name, InspectTone::Field);
    push(out, if value { " yes\n" } else { " no\n" }, InspectTone::Plain);
    assert(piece_views(out@) =~= before + yes_no_field(name@, value));
}

fn push_optional(out: &mut Vec<(String, InspectTone)>, name: &str, value: &Option<String>)
    ensures
        piece_views(final(out)@) == piece_views(old(out)@) + optional_field(name@, *value),
{
    let ghost before = piece_views(out@);
    match value {
        Some(v) => push_field(out, name, v.as_str()),
        None => {
            push(out, name, InspectTone::Field);
            push(out, " ", InspectTone::Plain);
            push(out, "none", InspectTone::Missing);
            push(out, "\n", InspectTone::Plain);
            assert(piece_views(out@) =~= before + optional_field(name@, *value));
        },
    }
}

/// Appends the fields of a session in full.
pub fn session_view_lines(out: &mut Vec<(String, InspectTone)>, session: &SessionView)
    ensures
        piece_views(final(out)@) == piece_views(old(out)@) + session_view_pieces(*session),
{
    let ghost before = piece_views(out@);
    push_field(out, "id", session.id.as_str());
    push_field(out, "name", session.name.as_str());
    let raw = debug_string(session.name.as_str());
    push_field(out, "name (raw)", raw.as_str());
    push_field(out, "server_id", session.server_id.as_str());
    push_field(out, "server_era", session.server_era.as_str());
    push_field(out, "session_id", session.session_id.as_str());
    push_yes_no(out, "is_staff", session.is_staff);
    push_yes_no(out, "is_manager", session.is_manager);
    push_optional(out, "client_address", &session.client_address);
    push_optional(out, "real_client_address", &session.real_client_address);
    assert(piece_views(out@) =~= before + session_view_pieces(*session));
}

/// Appends the fields of a session known from its change of nick.
pub fn nick_event_lines(out: &mut Vec<(String, InspectTone)>, event: &NickEvent)
    ensures
        piece_views(final(out)@) == piece_views(old(out)@) + nick_event_pieces(*event),
{
    let ghost before = piece_views(out@);
    push_field(out, "id", event.id.as_str());
    push_field(out, "name", event.to.as_str());
    let raw = debug_string(event.to.as_str());
    push_field(out, "name (raw)", raw.as_str());
    push_field(out, "session_id", event.session_id.as_str());
    assert(piece_views(out@) =~= before + nick_event_pieces(*event));
}

/// The text of the popup that inspects a session: a heading saying whether
/// the session is known in full, and its fields.
pub fn session_text(session: &SessionInfo) -> (r: Vec<(String, InspectTone)>)
    ensures
        piece_views(r@) == match *session {
            SessionInfo::Full(s) => seq![("Full session"@, InspectTone::Heading), ("\n"@, InspectTone::Plain)]
                + session_view_pieces(s),
            SessionInfo::Partial(e) => seq![
                ("Partial session"@, InspectTone::Heading),
                ("\n"@, InspectTone::Plain),
            ] + nick_event_pieces(e),
        },
{
    let mut out: Vec<(String, InspectTone)> = Vec::new();
    assert(piece_views(out@) =~= Seq::empty());
    match session {
        SessionInfo::Full(s) => {
            push(&mut out, "Full session", InspectTone::Heading);
            push(&mut out, "\n", InspectTone::Plain);
            session_view_lines(&mut out, s);
        },
        SessionInfo::Partial(e) => {
            push(&mut out, "Partial session", InspectTone::Heading);
            push(&mut out, "\n", InspectTone::Plain);
            nick_event_lines(&mut out, e);
        },
    }
    out
}

} // verus!
