//! The nick list of a joined room: its sessions in sections for people,
//! bots, lurkers (people without a nick) and nurkers (bots without a nick),
//! each sorted.

use vstd::prelude::*;
use vstd::string::StringExecFns;

use crate::euph_ui::{Joined, NickSession, SessionType};
use crate::sort::{sort, sorted_by, Ordered};
use crate::text::{decimal, lemma_lex_less_asymmetric, lemma_lex_less_transitive, lex_less, spec_decimal, str_less};

verus! {

impl NickSession {
    /// A copy of the session.
    pub fn copy(&self) -> (r: Self)
        ensures
            r == *self,
    {
        NickSession {
            name: self.name.clone(),
            id: self.id.clone(),
            session_id: self.session_id.clone(),
            is_staff: self.is_staff,
            is_manager: self.is_manager,
            session_type: self.session_type,
        }
    }
}

/// `false` comes before `true`.
pub open spec fn bool_before(a: bool, b: bool) -> bool {
    !a && b
}

/// Sessions are ordered by nick, user id, session id, staff and manager.
pub open spec fn session_before(a: NickSession, b: NickSession) -> bool {
    lex_less(a.name@, b.name@) || (a.name@ == b.name@ && (lex_less(a.id@, b.id@) || (a.id@ == b.id@ && (
    lex_less(a.session_id@, b.session_id@) || (a.session_id@ == b.session_id@ && (bool_before(a.is_staff, b.is_staff)
        || (a.is_staff == b.is_staff && bool_before(a.is_manager, b.is_manager))))))))
}

impl Ordered for NickSession {
    open spec fn spec_before(&self, other: &Self) -> bool {
        session_before(*self, *other)
    }

    proof fn lemma_before(a: &Self, b: &Self, c: &Self) {
        lemma_lex_less_asymmetric(a.name@, b.name@);
        lemma_lex_less_asymmetric(a.id@, b.id@);
        lemma_lex_less_asymmetric(a.session_id@, b.session_id@);
        lemma_lex_less_transitive(a.name@, b.name@, c.name@);
        lemma_lex_less_transitive(a.id@, b.id@, c.id@);
        lemma_lex_less_transitive(a.session_id@, b.session_id@, c.session_id@);
    }

    fn before(&self, other: &Self) -> (r: bool) {
        let same_name = self.name == other.name;
        let same_id = self.id == other.id;
        let same_session = self.session_id == other.session_id;
        str_less(self.name.as_str(), other.name.as_str()) || (same_name && (str_less(self.id.as_str(), other.id.as_str())
            || (same_id && (str_less(self.session_id.as_str(), other.session_id.as_str()) || (same_session && ((
        !self.is_staff && other.is_staff) || (self.is_staff == other.is_staff && !self.is_manager
            && other.is_manager)))))))
    }
}

/// The section of a session: people (0), bots (1), lurkers (2) or nurkers (3).
pub open spec fn section_of(s: NickSession) -> int {
    if s.session_type == Some(SessionType::Bot) && s.name@.len() == 0 {
        3
    } else if s.session_type == Some(SessionType::Bot) {
        1
    } else if s.name@.len() == 0 {
        2
    } else {
        0
    }
}

/// The sessions of `all` in section `k`, in their order.
pub open spec fn members(all: Seq<NickSession>, k: int) -> Seq<NickSession>
    decreases all.len(),
{
    if all.len() == 0 {
        Seq::empty()
    } else {
        let rest = members(all.drop_last(), k);
        if section_of(all.last()) == k {
            rest.push(all.last())
        } else {
            rest
        }
    }
}

/// All sessions of a joined room: the listed ones, then one's own.
pub open spec fn all_sessions(joined: &Joined) -> Seq<NickSession> {
    joined.listing@.push(joined.own)
}

/// A row of the nick list.
#[derive(Debug)]
pub enum NickRow {
    /// Between sections.
    Blank,
    /// A section's heading: its name and how many sessions it has.
    Heading { name: &'static str, count: usize },
    /// A session: its id, whether it is one's own, the nick shown (`lurk`
    /// for an empty nick), whether it is a lurker's, and its permissions
    /// (`!` staff, `*` manager, `~` account).
    Session { session_id: String, own: bool, name: String, lurker: bool, perms: &'static str },
}

/// A row as text.
pub enum NickRowText {
    Blank,
    Heading(Seq<char>, usize),
    Session(Seq<char>, bool, Seq<char>, bool, Seq<char>),
}

pub open spec fn row_text(r: NickRow) -> NickRowText {
    match r {
        NickRow::Blank => NickRowText::Blank,
        NickRow::Heading { name, count } => NickRowText::Heading(name@, count),
        NickRow::Session { session_id, own, name, lurker, perms } => NickRowText::Session(
            session_id@,
            own,
            name@,
            lurker,
            perms@,
        ),
    }
}

pub open spec fn rows_text(rows: Seq<NickRow>) -> Seq<NickRowText> {
    rows.map_values(|r: NickRow| row_text(r))
}

/// The row of session `s`, where `own_id` is one's own session id.
pub open spec fn session_row(s: NickSession, own_id: Seq<char>) -> NickRowText {
    NickRowText::Session(
        s.session_id@,
        s.session_id@ == own_id,
        if s.name@.len() == 0 {
            "lurk"@
        } else {
            s.name@
        },
        s.name@.len() == 0,
        if s.is_staff {
            "!"@
        } else if s.is_manager {
            "*"@
        } else if s.session_type == Some(SessionType::Account) {
            "~"@
        } else {
            ""@
        },
    )
}

/// The rows of a section named `name` with the sorted `sessions`, after
/// `before` rows: nothing for no sessions, else a blank row (unless it is
/// the first section shown), the heading and a row per session.
pub open spec fn section_rows(before: Seq<NickRowText>, name: Seq<char>, sessions: Seq<NickSession>, own_id: Seq<char>) -> Seq<NickRowText> {
    if sessions.len() == 0 {
        before
    } else {
        (if before.len() > 0 {
            before.push(NickRowText::Blank)
        } else {
            before
        }).push(NickRowText::Heading(name, sessions.len() as usize)) + sessions.map_values(
            |s: NickSession| session_row(s, own_id),
        )
    }
}

fn render_row(s: &NickSession, own_id: &String) -> (r: NickRow)
    ensures
        row_text(r) == session_row(*s, own_id@),
{
    let lurker = s.name.as_str().is_empty();
    let name = if lurker {
        String::from_str("lurk")
    } else {
        s.name.clone()
    };
    let perms = if s.is_staff {
        "!"
    } else if s.is_manager {
        "*"
    } else if s.session_type == Some(SessionType::Account) {
        "~"
    } else {
        ""
    };
    NickRow::Session { session_id: s.session_id.clone(), own: s.session_id == *own_id, name, lurker, perms }
}

fn render_section(rows: &mut Vec<NickRow>, name: &'static str, sessions: &Vec<NickSession>, own_id: &String)
    ensures
        rows_text(final(rows)@) == section_rows(rows_text(old(rows)@), name@, sessions@, own_id@),
{
    if sessions.len() == 0 {
        return;
    }
    if rows.len() > 0 {
        rows.push(NickRow::Blank);
    }
    rows.push(NickRow::Heading { name, count: sessions.len() });
    let ghost start = rows_text(rows@);
    let mut i: usize = 0;
    while i < sessions.len()
        invariant
            i <= sessions@.len(),
            rows_text(rows@) == start + sessions@.take(i as int).map_values(|s: NickSession| session_row(s, own_id@)),
        decreases sessions@.len() - i,
    {
        let row = render_row(&sessions[i], own_id);
        let ghost prev = rows@;
        rows.push(row);
        assert(rows_text(rows@) =~= rows_text(prev).push(row_text(row)));
        assert(sessions@.take(i + 1).map_values(|s: NickSession| session_row(s, own_id@)) =~= sessions@.take(
            i as int,
        ).map_values(|s: NickSession| session_row(s, own_id@)).push(session_row(sessions@[i as int], own_id@)));
        i += 1;
    }
    assert(sessions@.take(sessions@.len() as int) =~= sessions@);
}

/// The sessions of a joined room in their sections, each section sorted.
pub fn sections(joined: &Joined) -> (r: (Vec<NickSession>, Vec<NickSession>, Vec<NickSession>, Vec<NickSession>))
    requires
        joined.listing@.len() < usize::MAX,
    ensures
        sorted_by(r.0@) && r.0@.to_multiset() == members(all_sessions(joined), 0).to_multiset(),
        sorted_by(r.1@) && r.1@.to_multiset() == members(all_sessions(joined), 1).to_multiset(),
        sorted_by(r.2@) && r.2@.to_multiset() == members(all_sessions(joined), 2).to_multiset(),
        sorted_by(r.3@) && r.3@.to_multiset() == members(all_sessions(joined), 3).to_multiset(),
{
    let mut people: Vec<NickSession> = Vec::new();
    let mut bots: Vec<NickSession> = Vec::new();
    let mut lurkers: Vec<NickSession> = Vec::new();
    let mut nurkers: Vec<NickSession> = Vec::new();
    let ghost all = all_sessions(joined);
    let mut i: usize = 0;
    while i <= joined.listing.len()
        invariant
            i <= joined.listing@.len() + 1,
            joined.listing@.len() < usize::MAX,
            all == all_sessions(joined),
            people@ == members(all.take(i as int), 0),
            bots@ == members(all.take(i as int), 1),
            lurkers@ == members(all.take(i as int), 2),
            nurkers@ == members(all.take(i as int), 3),
        decreases joined.listing@.len() + 1 - i,
    {
        let s = if i < joined.listing.len() {
            joined.listing[i].copy()
        } else {
            joined.own.copy()
        };
        assert(all.take(i + 1).drop_last() =~= all.take(i as int));
        assert(all.take(i + 1).last() == s);
        let is_bot = s.session_type == Some(SessionType::Bot);
        let no_nick = s.name.as_str().is_empty();
        if is_bot && no_nick {
            nurkers.push(s);
        } else if is_bot {
            bots.push(s);
        } else if no_nick {
            lurkers.push(s);
        } else {
            people.push(s);
        }
        i += 1;
    }
    assert(all.take(all.len() as int) =~= all);
    sort(&mut people);
    sort(&mut bots);
    sort(&mut lurkers);
    sort(&mut nurkers);
    (people, bots, lurkers, nurkers)
}

/// The rows of the nick list of a joined room: the sections People, Bots,
/// Lurkers and Nurkers with their sorted sessions, leaving out empty ones.
pub fn nick_list_rows(joined: &Joined) -> (r: Vec<NickRow>)
    requires
        joined.listing@.len() < usize::MAX,
    ensures
        exists|p: Seq<NickSession>, b: Seq<NickSession>, l: Seq<NickSession>, n: Seq<NickSession>|
            {
                &&& sorted_by(p) && p.to_multiset() == members(all_sessions(joined), 0).to_multiset()
                &&& sorted_by(b) && b.to_multiset() == members(all_sessions(joined), 1).to_multiset()
                &&& sorted_by(l) && l.to_multiset() == members(all_sessions(joined), 2).to_multiset()
                &&& sorted_by(n) && n.to_multiset() == members(all_sessions(joined), 3).to_multiset()
                &&& rows_text(r@) == section_rows(
                    section_rows(
                        section_rows(section_rows(Seq::empty(), "People"@, p, joined.own.session_id@), "Bots"@, b, joined.own.session_id@),
                        "Lurkers"@,
                        l,
                        joined.own.session_id@,
                    ),
                    "Nurkers"@,
                    n,
                    joined.own.session_id@,
                )
            },
{
    let (people, bots, lurkers, nurkers) = sections(joined);
    let mut rows: Vec<NickRow> = Vec::new();
    assert(rows_text(rows@) =~= Seq::<NickRowText>::empty());
    render_section(&mut rows, "People", &people, &joined.own.session_id);
    render_section(&mut rows, "Bots", &bots, &joined.own.session_id);
    render_section(&mut rows, "Lurkers", &lurkers, &joined.own.session_id);
    render_section(&mut rows, "Nurkers", &nurkers, &joined.own.session_id);
    rows
}

/// The count after a section's name, as in ` (3)`.
pub fn heading_count(count: usize) -> (r: String)
    ensures
        r@ == " ("@ + spec_decimal(count as nat) + ")"@,
{
    let mut s = String::from_str(" (");
    s.append(decimal(count).as_str());
    s.append(")");
    s
}

} // verus!
