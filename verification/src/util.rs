//! Small helpers: the caesar cipher, room name characters, and choosing the
//! time zone.

use vstd::prelude::*;

use jiff::tz::TimeZone;
use vstd::string::StrSliceExecFns;
use vstd::string::StringExecFns;

use crate::text::string_from_chars;

verus! {

/// `c` rotated `by` places through the alphabet (`0 <= by < 26`), keeping its
/// case; other characters stay.
pub open spec fn rot_char(c: char, by: int) -> char {
    if 'a' <= c <= 'z' {
        (((c as int - 'a' as int + by) % 26) + 'a' as int) as char
    } else if 'A' <= c <= 'Z' {
        (((c as int - 'A' as int + by) % 26) + 'A' as int) as char
    } else {
        c
    }
}

/// `text` with each ASCII letter rotated by `by` places (modulo 26).
pub open spec fn spec_caesar(text: Seq<char>, by: int) -> Seq<char> {
    text.map_values(|c: char| rot_char(c, by % 26))
}

fn rot(c: char, by: u8) -> (r: char)
    requires
        by < 26,
    ensures
        r == rot_char(c, by as int),
{
    if 'a' <= c && c <= 'z' {
        let v = c as u8 - 97u8;
        let v = (v + by) % 26;
        (v + 97u8) as char
    } else if 'A' <= c && c <= 'Z' {
        let v = c as u8 - 65u8;
        let v = (v + by) % 26;
        (v + 65u8) as char
    } else {
        c
    }
}

/// Rotates each ASCII letter of `text` by `by` places through the alphabet,
/// keeping its case.
pub fn caesar(text: &str, by: i8) -> (r: String)
    ensures
        r@ == spec_caesar(text@, by as int),
{
    let by: u8 = ((by as i16 + 130) % 26) as u8;
    assert(by == (by as int) % 26);
    let mut out: Vec<char> = Vec::new();
    for c in it: text.chars()
        invariant
            it.seq() == text@,
            by < 26,
            out@ == spec_caesar(text@.take(it.index()), by as int),
    {
        out.push(rot(c, by));
        assert(text@.take(it.index() + 1) =~= text@.take(it.index()).push(c));
        assert(out@ =~= spec_caesar(text@.take(it.index() + 1), by as int));
    }
    assert(text@.take(text@.len() as int) =~= text@);
    string_from_chars(out.as_slice(), 0, out.len())
}

/// Test if a character is allowed to be typed in a room name.
pub fn is_room_char(c: char) -> (r: bool)
    ensures
        r == (('a' <= c <= 'z') || ('A' <= c <= 'Z') || ('0' <= c <= '9') || c == '_'),
{
    ('a' <= c && c <= 'z') || ('A' <= c && c <= 'Z') || ('0' <= c && c <= '9') || c == '_'
}

/// Rotating back by the opposite amount restores a character.
pub proof fn lemma_rot_char_inverse(c: char, by: int)
    ensures
        rot_char(rot_char(c, by % 26), (-by) % 26) == c,
{
    let a = by % 26;
    let b = (-by) % 26;
    assert(a == 0 ==> b == 0);
    assert(a != 0 ==> a + b == 26);
    if 'a' <= c <= 'z' {
        let x = c as int - 'a' as int;
        let y = (x + a) % 26;
        assert(0 <= y < 26);
        assert(rot_char(c, a) as int == y + 'a' as int);
        assert((y + b) % 26 == x);
    } else if 'A' <= c <= 'Z' {
        let x = c as int - 'A' as int;
        let y = (x + a) % 26;
        assert(rot_char(c, a) as int == y + 'A' as int);
        assert((y + b) % 26 == x);
    }
}

/// Decoding with the opposite amount undoes the caesar cipher.
pub proof fn lemma_caesar_inverse(text: Seq<char>, by: int)
    ensures
        spec_caesar(spec_caesar(text, by), -by) == text,
{
    assert forall|i: int| 0 <= i < text.len() implies #[trigger] spec_caesar(
        spec_caesar(text, by),
        -by,
    )[i] == text[i] by {
        lemma_rot_char_inverse(text[i], by);
    }
    assert(spec_caesar(spec_caesar(text, by), -by) =~= text);
}

/// Where the time zone comes from: the system's, one looked up by name in
/// the tz database, or a string that is a POSIX TZ string or else a name.
#[derive(Debug)]
pub enum TzChoice {
    System,
    Get(String),
    PosixOrGet(String),
}

/// A choice of time zone with its strings as characters.
pub enum TzChoiceView {
    System,
    Get(Seq<char>),
    PosixOrGet(Seq<char>),
}

pub open spec fn tz_choice_view(c: TzChoice) -> TzChoiceView {
    match c {
        TzChoice::System => TzChoiceView::System,
        TzChoice::Get(s) => TzChoiceView::Get(s@),
        TzChoice::PosixOrGet(s) => TzChoiceView::PosixOrGet(s@),
    }
}

/// An optional string as characters.
pub open spec fn opt_chars(o: Option<String>) -> Option<Seq<char>> {
    match o {
        Some(s) => Some(s@),
        None => None,
    }
}

/// The time zone `TZ` asks for (`env_tz`, which wins) or else `tz`: the
/// system's where there is none or it is `localtime`, the zone named after
/// a leading `:`, and otherwise a POSIX TZ string or a name.
pub open spec fn spec_tz_choice(env_tz: Option<Seq<char>>, tz: Option<Seq<char>>) -> TzChoiceView {
    let s = match env_tz {
        Some(e) => Some(e),
        None => tz,
    };
    match s {
        None => TzChoiceView::System,
        Some(s) => if s == "localtime"@ {
            TzChoiceView::System
        } else if s.len() > 0 && s[0] == ':' {
            TzChoiceView::Get(s.drop_first())
        } else {
            TzChoiceView::PosixOrGet(s)
        },
    }
}

/// Chooses the time zone from the value of the `TZ` environment variable,
/// if it is set, or else from `tz`, both in the format of `TZ`.
pub fn time_zone_choice(env_tz: Option<String>, tz: Option<String>) -> (r: TzChoice)
    ensures
        tz_choice_view(r) == spec_tz_choice(opt_chars(env_tz), opt_chars(tz)),
{
    let s = match env_tz {
        Some(e) => e,
        None => match tz {
            Some(t) => t,
            None => return TzChoice::System,
        },
    };
    proof {
        reveal_strlit("localtime");
    }
    let localtime = String::from_str("localtime");
    if s == localtime {
        return TzChoice::System;
    }
    let n = s.as_str().unicode_len();
    if n > 0 && s.as_str().get_char(0) == ':' {
        let rest = String::from_str(s.as_str().substring_char(1, n));
        assert(rest@ =~= s@.drop_first());
        return TzChoice::Get(rest);
    }
    TzChoice::PosixOrGet(s)
}

/// Whether `jiff` parses `s` as a POSIX TZ string.
pub uninterp spec fn posix_tz_parses(s: Seq<char>) -> bool;

#[verifier::external_type_specification]
#[verifier::external_body]
pub struct ExTimeZone(jiff::tz::TimeZone);

/// The time zone of the POSIX TZ string `s`, as `jiff::tz::TimeZone::posix`
/// parses it; `None` where it does not parse (which `posix_tz_parses`
/// names).
#[verifier::external_body]
fn posix_time_zone(s: &str) -> (r: Option<TimeZone>)
    ensures
        r is Some == posix_tz_parses(s@),
{
    TimeZone::posix(s).ok()
}

/// The time zone of a choice that can be had without the system or the tz
/// database: that of a string that parses as a POSIX TZ string. `None`
/// otherwise, where the zone is to be looked up.
pub fn posix_zone_of(choice: &TzChoice) -> (r: Option<TimeZone>)
    ensures
        match tz_choice_view(*choice) {
            TzChoiceView::PosixOrGet(s) => r is Some == posix_tz_parses(s),
            _ => r is None,
        },
{
    match choice {
        TzChoice::PosixOrGet(s) => posix_time_zone(s.as_str()),
        _ => None,
    }
}

} // verus!
