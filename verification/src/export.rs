//! Exporting room logs: output formats and the names of output files.

use vstd::prelude::*;
use vstd::string::StringExecFns;

use crate::sort::{sort, sorted_by, Ordered};
use crate::text::{lemma_lex_less_asymmetric, lemma_lex_less_transitive, lex_less, str_less, string_from_chars};

verus! {

/// The formats logs can be exported in.
#[derive(Debug, Clone, Copy, PartialEq, Eq, Structural)]
pub enum Format {
    /// Human-readable tree-structured messages.
    Text,
    /// Array of message objects in the same format as the euphoria API uses.
    Json,
    /// Message objects in the same format as the euphoria API uses, one per
    /// line (https://jsonlines.org/).
    JsonLines,
}

/// The human-readable name of a format.
pub open spec fn format_name(f: Format) -> Seq<char> {
    match f {
        Format::Text => "text"@,
        Format::Json => "json"@,
        Format::JsonLines => "json lines"@,
    }
}

/// The file extension of a format.
pub open spec fn format_extension(f: Format) -> Seq<char> {
    match f {
        Format::Text => "txt"@,
        Format::Json => "json"@,
        Format::JsonLines => "jsonl"@,
    }
}

impl Format {
    pub fn name(&self) -> (r: &'static str)
        ensures
            r@ == format_name(*self),
    {
        match self {
            Self::Text => "text",
            Self::Json => "json",
            Self::JsonLines => "json lines",
        }
    }

    pub fn extension(&self) -> (r: &'static str)
        ensures
            r@ == format_extension(*self),
    {
        match self {
            Self::Text => "txt",
            Self::Json => "json",
            Self::JsonLines => "jsonl",
        }
    }
}

/// What to export, in which format, and where to.
pub struct Args {
    /// Rooms to export.
    pub rooms: Vec<String>,
    /// Export all rooms.
    pub all: bool,
    /// Domain to resolve the room names with.
    pub domain: String,
    /// Format of the output file.
    pub format: Format,
    /// Location of the output file, with `%r` standing for the room name,
    /// `%e` for the format's extension and `%%` for a literal `%`.
    pub out: String,
}

/// The output location `out` with its placeholders filled in, after a `%`
/// when `special` holds: `%r` becomes the room name, `%e` the extension, `%%`
/// a single `%`; any other character after `%` is kept together with the
/// `%`, and a `%` at the very end is dropped.
pub open spec fn spec_format_out(out: Seq<char>, room: Seq<char>, ext: Seq<char>, special: bool) -> Seq<
    char,
>
    decreases out.len(),
{
    if out.len() == 0 {
        Seq::empty()
    } else {
        let c = out[0];
        let rest = out.drop_first();
        if special {
            let piece = if c == 'r' {
                room
            } else if c == 'e' {
                ext
            } else if c == '%' {
                seq!['%']
            } else {
                seq!['%', c]
            };
            piece + spec_format_out(rest, room, ext, false)
        } else if c == '%' {
            spec_format_out(rest, room, ext, true)
        } else {
            seq![c] + spec_format_out(rest, room, ext, false)
        }
    }
}

/// Appends the characters of `s` to `out`.
fn push_chars(out: &mut Vec<char>, s: &str)
    ensures
        final(out)@ == old(out)@ + s@,
{
    for c in it: s.chars()
        invariant
            it.seq() == s@,
            out@ == old(out)@ + s@.take(it.index()),
    {
        out.push(c);
        assert(s@.take(it.index() + 1) =~= s@.take(it.index()).push(c));
        assert(out@ =~= old(out)@ + s@.take(it.index() + 1));
    }
    assert(s@.take(s@.len() as int) =~= s@);
}

/// Fills in the placeholders of the output location `out` for `room`.
pub fn format_out(out: &str, room: &str, format: Format) -> (r: String)
    ensures
        r@ == spec_format_out(out@, room@, format_extension(format), false),
{
    let mut result: Vec<char> = Vec::new();
    let ghost all = out@;

    let mut special = false;
    proof {
        assert(all.skip(0) =~= all);
        assert(result@ + spec_format_out(all, room@, format_extension(format), false)
            =~= spec_format_out(all, room@, format_extension(format), false));
    }
    for char in it: out.chars()
        invariant
            it.seq() == all,
            all == out@,
            result@ + spec_format_out(all.skip(it.index()), room@, format_extension(format), special)
                == spec_format_out(all, room@, format_extension(format), false),
    {
        let ghost i = it.index();
        let ghost before = result@;
        proof {
            assert(all.skip(i)[0] == char);
            assert(all.skip(i).drop_first() =~= all.skip(i + 1));
        }
        if special {
            if char == 'r' {
                push_chars(&mut result, room);
            } else if char == 'e' {
                push_chars(&mut result, format.extension());
            } else if char == '%' {
                result.push('%');
            } else {
                result.push('%');
                result.push(char);
            }
            special = false;
            proof {
                let piece = if char == 'r' {
                    room@
                } else if char == 'e' {
                    format_extension(format)
                } else if char == '%' {
                    seq!['%']
                } else {
                    seq!['%', char]
                };
                assert(result@ =~= before + piece);
                assert(before + (piece + spec_format_out(all.skip(i + 1), room@, format_extension(format), false))
                    =~= result@ + spec_format_out(all.skip(i + 1), room@, format_extension(format), false));
            }
        } else if char == '%' {
            special = true;
        } else {
            result.push(char);
            proof {
                assert(before + (seq![char] + spec_format_out(all.skip(i + 1), room@, format_extension(format), false))
                    =~= result@ + spec_format_out(all.skip(i + 1), room@, format_extension(format), false));
            }
        }
    }
    proof {
        assert(all.skip(all.len() as int) =~= Seq::<char>::empty());
        assert(result@ + Seq::<char>::empty() =~= result@);
    }
    string_from_chars(result.as_slice(), 0, result.len())
}


/// Room names in the order of their characters.
impl Ordered for String {
    open spec fn spec_before(&self, other: &Self) -> bool {
        lex_less(self@, other@)
    }

    proof fn lemma_before(a: &Self, b: &Self, c: &Self) {
        lemma_lex_less_asymmetric(a@, b@);
        lemma_lex_less_transitive(a@, b@, c@);
    }

    fn before(&self, other: &Self) -> (r: bool) {
        str_less(self.as_str(), other.as_str())
    }
}

/// Where one room's export goes.
#[derive(Debug)]
pub enum Target {
    Stdout,
    File(String),
}

/// `s` without elements that equal the one before them.
pub open spec fn dedup(s: Seq<Seq<char>>) -> Seq<Seq<char>>
    decreases s.len(),
{
    if s.len() == 0 {
        s
    } else {
        let rest = dedup(s.drop_last());
        if s.len() >= 2 && s[s.len() - 2] == s.last() {
            rest
        } else {
            rest.push(s.last())
        }
    }
}

/// The output location, where it names a directory (ends with `/`) with
/// `%r.%e` appended.
pub open spec fn spec_out_location(out: Seq<char>) -> Seq<char> {
    if out.len() > 0 && out.last() == '/' {
        out + "%r.%e"@
    } else {
        out
    }
}

/// Where the export of `room` goes: to stdout for the location `-`, else to
/// the file the location names for the room.
pub open spec fn spec_target(out: Seq<char>, room: Seq<char>, format: Format) -> Option<Seq<char>> {
    let out = spec_out_location(out);
    if out == "-"@ {
        None
    } else {
        Some(spec_format_out(out, room, format_extension(format), false))
    }
}

/// The characters of each string.
pub open spec fn string_views(v: Seq<String>) -> Seq<Seq<char>> {
    v.map_values(|s: String| s@)
}

/// Removes elements that equal the one before them.
fn dedup_strings(v: &Vec<String>) -> (r: Vec<String>)
    ensures
        string_views(r@) == dedup(string_views(v@)),
{
    let mut out: Vec<String> = Vec::new();
    let mut i: usize = 0;
    assert(string_views(v@).take(0) =~= Seq::<Seq<char>>::empty());
    while i < v.len()
        invariant
            i <= v@.len(),
            string_views(out@) == dedup(string_views(v@).take(i as int)),
            i > 0 ==> out@.len() > 0 && out@.last()@ == v@[i - 1]@,
        decreases v@.len() - i,
    {
        let ghost t = string_views(v@).take(i + 1);
        assert(t.drop_last() =~= string_views(v@).take(i as int));
        assert(t.last() == v@[i as int]@);
        if i > 0 {
            assert(t[t.len() - 2] == v@[i - 1]@);
        }
        if i == 0 || v[i - 1] != v[i] {
            let ghost before = out@;
            out.push(v[i].clone());
            assert(string_views(out@) =~= string_views(before).push(v@[i as int]@));
        }
        i += 1;
    }
    assert(string_views(v@).take(v@.len() as int) =~= string_views(v@));
    out
}

/// The rooms to export and where each goes: all rooms of the vault
/// (`vault_rooms`) in order of their names where `args.all` is set, else the
/// rooms given, without repeats of the room just before; a location naming
/// a directory gets `%r.%e` appended.
pub fn export_targets(args: &Args, vault_rooms: Vec<String>) -> (r: Vec<(String, Target)>)
    ensures
        ({
            let rooms = if args.all {
                r@.map_values(|e: (String, Target)| e.0).to_multiset() == vault_rooms@.to_multiset()
                    && sorted_by(r@.map_values(|e: (String, Target)| e.0))
            } else {
                r@.map_values(|e: (String, Target)| e.0@) == dedup(string_views(args.rooms@))
            };
            rooms
        }),
        forall|i: int|
            0 <= i < r@.len() ==> match (#[trigger] r@[i]).1 {
                Target::Stdout => spec_target(args.out@, r@[i].0@, args.format) is None,
                Target::File(f) => spec_target(args.out@, r@[i].0@, args.format) == Some(f@),
            },
{
    let mut out = args.out.clone();
    let n = out.unicode_len();
    if n > 0 && out.get_char(n - 1) == '/' {
        out.append("%r.%e");
    }
    assert(out@ == spec_out_location(args.out@));
    let rooms = if args.all {
        let mut rooms = vault_rooms;
        sort(&mut rooms);
        rooms
    } else {
        dedup_strings(&args.rooms)
    };
    let to_stdout = out == String::from_str("-");
    let mut targets: Vec<(String, Target)> = Vec::new();
    let mut i: usize = 0;
    while i < rooms.len()
        invariant
            i <= rooms@.len(),
            targets@.len() == i,
            out@ == spec_out_location(args.out@),
            to_stdout == (out@ == "-"@),
            forall|j: int| 0 <= j < i ==> (#[trigger] targets@[j]).0 == rooms@[j],
            forall|j: int|
                0 <= j < i ==> match (#[trigger] targets@[j]).1 {
                    Target::Stdout => spec_target(args.out@, targets@[j].0@, args.format) is None,
                    Target::File(f) => spec_target(args.out@, targets@[j].0@, args.format) == Some(f@),
                },
        decreases rooms@.len() - i,
    {
        let room = rooms[i].clone();
        let target = if to_stdout {
            Target::Stdout
        } else {
            Target::File(format_out(out.as_str(), room.as_str(), args.format))
        };
        targets.push((room, target));
        i += 1;
    }
    assert(targets@.map_values(|e: (String, Target)| e.0) =~= rooms@);
    assert(targets@.map_values(|e: (String, Target)| e.0@) =~= string_views(rooms@));
    targets
}

} // verus!
