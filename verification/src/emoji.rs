//! The table of emoji names that can be written as `:name:` in messages.

use vstd::prelude::*;

verus! {

/// The first entry of `entries` whose name is `name`: `Some(replacement)` for
/// a known emoji (where the replacement may be absent), `None` otherwise.
pub open spec fn emoji_lookup(
    entries: Seq<(Seq<char>, Option<Seq<char>>)>,
    name: Seq<char>,
) -> Option<Option<Seq<char>>>
    decreases entries.len(),
{
    if entries.len() == 0 {
        None
    } else if entries[0].0 == name {
        Some(entries[0].1)
    } else {
        emoji_lookup(entries.drop_first(), name)
    }
}

/// Emoji names, each with the text it is replaced by, if it has one.
pub struct Emoji {
    entries: Vec<(String, Option<String>)>,
}

impl Emoji {
    /// The emoji names and their replacements, in the order they were given.
    pub closed spec fn spec_entries(&self) -> Seq<(Seq<char>, Option<Seq<char>>)> {
        self.entries@.map_values(
            |e: (String, Option<String>)|
                (
                    e.0@,
                    match e.1 {
                        Some(r) => Some(r@),
                        None => None,
                    },
                ),
        )
    }

    /// What `name` stands for.
    pub open spec fn lookup(&self, name: Seq<char>) -> Option<Option<Seq<char>>> {
        emoji_lookup(self.spec_entries(), name)
    }

    /// A table with the given names and replacements.
    pub fn new(entries: Vec<(String, Option<String>)>) -> (r: Self)
        ensures
            r.spec_entries() == entries@.map_values(
                |e: (String, Option<String>)|
                    (
                        e.0@,
                        match e.1 {
                            Some(r) => Some(r@),
                            None => None,
                        },
                    ),
            ),
    {
        Self { entries }
    }

    /// A table without any emoji.
    pub fn empty() -> (r: Self)
        ensures
            forall|name: Seq<char>| r.lookup(name) is None,
    {
        let r = Self { entries: Vec::new() };
        assert(r.spec_entries() =~= Seq::empty());
        r
    }

    /// Looks `name` up: `None` if it is not an emoji, otherwise its
    /// replacement, if it has one.
    pub fn get(&self, name: &String) -> (r: Option<Option<&String>>)
        ensures
            match r {
                None => self.lookup(name@) is None,
                Some(None) => self.lookup(name@) == Some(None::<Seq<char>>),
                Some(Some(s)) => self.lookup(name@) == Some(Some(s@)),
            },
    {
        let mut i: usize = 0;
        assert(self.spec_entries().skip(0) =~= self.spec_entries());
        while i < self.entries.len()
            invariant
                i <= self.entries.len(),
                self.lookup(name@) == emoji_lookup(self.spec_entries().skip(i as int), name@),
            decreases self.entries.len() - i,
        {
            let ghost rest = self.spec_entries().skip(i as int);
            assert(rest.drop_first() =~= self.spec_entries().skip(i + 1));
            assert(rest[0] == self.spec_entries()[i as int]);
            let entry = &self.entries[i];
            if entry.0.eq(name) {
                return match &entry.1 {
                    Some(s) => Some(Some(s)),
                    None => Some(None),
                };
            }
            i += 1;
        }
        None
    }
}

} // verus!
