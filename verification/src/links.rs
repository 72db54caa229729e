//! The links popup of a message: the URLs and room names in it, in the order
//! in which they occur, to be opened from a list or by number keys.

use linkify::{LinkFinder, LinkKind};
use vstd::prelude::*;
use vstd::string::StringExecFns;

use crate::emoji::Emoji;
use crate::highlight::{find_char_spans, spans_of, SpanType};
use crate::keys::KeyMatches;
use crate::list::{
    handle_list_input_event, is_list_key, list_key_effect, row_selected, selectable, ListBuilder,
    ListState,
};
use crate::logger::starts_with;
use crate::text::{byte_offset, chars_and_offsets, lemma_lex_less_asymmetric, lemma_lex_less_transitive, lex_less, str_less, string_from_chars};

verus! {

broadcast use vstd::seq_lib::group_to_multiset_ensures;

/// A link in a message.
#[derive(Debug, Clone, PartialEq, Eq)]
pub enum Link {
    Url(String),
    Room(String),
}

/// A link as text: a URL, or the name of a room.
pub enum LinkText {
    Url(Seq<char>),
    Room(Seq<char>),
}

pub open spec fn link_text(l: Link) -> LinkText {
    match l {
        Link::Url(u) => LinkText::Url(u@),
        Link::Room(n) => LinkText::Room(n@),
    }
}

/// The URL-like links that the `linkify` crate finds in `content` when
/// schemes are optional and only URLs are looked for: their start and end
/// byte offsets and their text.
pub uninterp spec fn linkify_url_links(content: Seq<char>) -> Seq<(usize, usize, Seq<char>)>;

/// Finds the URL-like links in `content` with `linkify::LinkFinder` (schemes
/// optional, URLs only). Its result is named `linkify_url_links`.
#[verifier::external_body]
fn find_url_links(content: &str) -> (r: Vec<(usize, usize, String)>)
    ensures
        r@.len() == linkify_url_links(content@).len(),
        forall|k: int|
            0 <= k < r@.len() ==> (#[trigger] r@[k]).0 == linkify_url_links(content@)[k].0 && r@[k].1
                == linkify_url_links(content@)[k].1 && r@[k].2@ == linkify_url_links(content@)[k].2,
{
    let mut finder = LinkFinder::new();
    finder.url_must_have_scheme(false).kinds(&[LinkKind::Url]);
    let mut out = Vec::new();
    for link in finder.links(content) {
        out.push((link.start(), link.end(), link.as_str().to_string()));
    }
    out
}

/// A link with its start and end byte offsets, as text.
pub type EntryText = (usize, usize, LinkText);

pub open spec fn entry_text(e: (usize, usize, Link)) -> EntryText {
    (e.0, e.1, link_text(e.2))
}

/// URL links given by their start and end byte offsets and their text, as
/// entries.
pub open spec fn entries_of_urls(urls: Seq<(usize, usize, Seq<char>)>) -> Seq<EntryText> {
    urls.map_values(|u: (usize, usize, Seq<char>)| (u.0, u.1, LinkText::Url(u.2)))
}

/// The URL links of `content` as entries.
pub open spec fn url_entries(content: Seq<char>) -> Seq<EntryText> {
    entries_of_urls(linkify_url_links(content))
}

/// URL links with their text as a sequence of characters.
pub open spec fn url_views(urls: Seq<(usize, usize, String)>) -> Seq<(usize, usize, Seq<char>)> {
    urls.map_values(|u: (usize, usize, String)| (u.0, u.1, u.2@))
}

/// The room links among `spans` (character ranges into `content`) as
/// entries: their byte offsets and the room name after the `&`.
pub open spec fn room_entries(content: Seq<char>, spans: Seq<(SpanType, int, int)>) -> Seq<EntryText>
    decreases spans.len(),
{
    if spans.len() == 0 {
        Seq::empty()
    } else {
        let rest = room_entries(content, spans.drop_last());
        let s = spans.last();
        if s.0 == SpanType::Room {
            rest.push(
                (
                    byte_offset(content, s.1) as usize,
                    byte_offset(content, s.2) as usize,
                    LinkText::Room(content.subrange(s.1 + 1, s.2)),
                ),
            )
        } else {
            rest
        }
    }
}

/// Link `a` comes before link `b`: URLs before rooms, then by text.
pub open spec fn link_before(a: LinkText, b: LinkText) -> bool {
    match (a, b) {
        (LinkText::Url(x), LinkText::Url(y)) => lex_less(x, y),
        (LinkText::Url(_), LinkText::Room(_)) => true,
        (LinkText::Room(_), LinkText::Url(_)) => false,
        (LinkText::Room(x), LinkText::Room(y)) => lex_less(x, y),
    }
}

/// Entry `a` comes before entry `b`: by start, then end, then link.
pub open spec fn entry_before(a: EntryText, b: EntryText) -> bool {
    a.0 < b.0 || (a.0 == b.0 && (a.1 < b.1 || (a.1 == b.1 && link_before(a.2, b.2))))
}

/// No entry of `s` comes before an earlier one.
pub open spec fn entries_sorted(s: Seq<EntryText>) -> bool {
    forall|i: int, j: int| 0 <= i < j < s.len() ==> !entry_before(#[trigger] s[j], #[trigger] s[i])
}

proof fn lemma_entry_before_order(a: EntryText, b: EntryText, c: EntryText)
    ensures
        entry_before(a, b) ==> !entry_before(b, a),
        entry_before(a, b) && entry_before(b, c) ==> entry_before(a, c),
{
    match (a.2, b.2, c.2) {
        (LinkText::Url(x), LinkText::Url(y), LinkText::Url(z)) => {
            lemma_lex_less_asymmetric(x, y);
            lemma_lex_less_transitive(x, y, z);
        },
        (LinkText::Room(x), LinkText::Room(y), LinkText::Room(z)) => {
            lemma_lex_less_asymmetric(x, y);
            lemma_lex_less_transitive(x, y, z);
        },
        (LinkText::Url(x), LinkText::Url(y), _) => {
            lemma_lex_less_asymmetric(x, y);
        },
        (LinkText::Room(x), LinkText::Room(y), _) => {
            lemma_lex_less_asymmetric(x, y);
        },
        _ => {},
    }
}

fn entry_less(a: &(usize, usize, Link), b: &(usize, usize, Link)) -> (r: bool)
    ensures
        r == entry_before(entry_text(*a), entry_text(*b)),
{
    let links = match (&a.2, &b.2) {
        (Link::Url(x), Link::Url(y)) => str_less(x.as_str(), y.as_str()),
        (Link::Url(_), Link::Room(_)) => true,
        (Link::Room(_), Link::Url(_)) => false,
        (Link::Room(x), Link::Room(y)) => str_less(x.as_str(), y.as_str()),
    };
    a.0 < b.0 || (a.0 == b.0 && (a.1 < b.1 || (a.1 == b.1 && links)))
}

/// Sorts `entries` by start, end and link.
fn sort_entries(entries: &mut Vec<(usize, usize, Link)>)
    ensures
        entries_sorted(final(entries)@.map_values(|e: (usize, usize, Link)| entry_text(e))),
        final(entries)@.map_values(|e: (usize, usize, Link)| entry_text(e)).to_multiset()
            == old(entries)@.map_values(|e: (usize, usize, Link)| entry_text(e)).to_multiset(),
{
    let mut rest: Vec<(usize, usize, Link)> = Vec::new();
    std::mem::swap(&mut rest, entries);
    let ghost all = rest@.map_values(|e: (usize, usize, Link)| entry_text(e));
    let mut out: Vec<(usize, usize, Link)> = Vec::new();
    assert(out@.map_values(|e: (usize, usize, Link)| entry_text(e)) =~= Seq::<EntryText>::empty());
    while rest.len() > 0
        invariant
            entries_sorted(out@.map_values(|e: (usize, usize, Link)| entry_text(e))),
            out@.map_values(|e: (usize, usize, Link)| entry_text(e)).to_multiset().add(
                rest@.map_values(|e: (usize, usize, Link)| entry_text(e)).to_multiset(),
            ) == all.to_multiset(),
        decreases rest@.len(),
    {
        let ghost before_pop = rest@;
        let r = rest.pop().unwrap();
        assert(before_pop.map_values(|e: (usize, usize, Link)| entry_text(e)) =~= rest@.map_values(
            |e: (usize, usize, Link)| entry_text(e),
        ).push(entry_text(r)));
        let ghost sorted = out@.map_values(|e: (usize, usize, Link)| entry_text(e));
        let mut i: usize = 0;
        while i < out.len() && !entry_less(&r, &out[i])
            invariant
                i <= out@.len(),
                sorted == out@.map_values(|e: (usize, usize, Link)| entry_text(e)),
                forall|j: int| 0 <= j < i ==> !entry_before(entry_text(r), #[trigger] sorted[j]),
            decreases out@.len() - i,
        {
            i += 1;
        }
        out.insert(i, r);
        let ghost now = out@.map_values(|e: (usize, usize, Link)| entry_text(e));
        assert(now =~= sorted.insert(i as int, entry_text(r)));
        assert(entries_sorted(now)) by {
            let x = entry_text(r);
            assert forall|a: int, b: int| 0 <= a < b < now.len() implies !entry_before(
                #[trigger] now[b],
                #[trigger] now[a],
            ) by {
                if a < i && b > i {
                    lemma_entry_before_order(sorted[b - 1], sorted[a], x);
                    assert(!entry_before(x, sorted[a]));
                } else if a == i && b > i {
                    lemma_entry_before_order(sorted[b - 1], x, sorted[i as int]);
                    if b - 1 > i {
                        assert(!entry_before(sorted[b - 1], sorted[i as int]));
                    }
                    assert(entry_before(x, sorted[i as int]));
                }
            }
        }
    }
    assert(rest@.map_values(|e: (usize, usize, Link)| entry_text(e)).to_multiset() =~= vstd::multiset::Multiset::empty());
    *entries = out;
}

/// The links popup: the links of a message and a list to choose among them.
pub struct LinksState {
    links: Vec<Link>,
    list: ListState<usize>,
}

/// What the caller is to do after a key in the links popup.
pub enum LinksAction {
    NotHandled,
    Handled,
    Close,
    /// Open the URL in the browser.
    OpenUrl(String),
    /// Show the room with this name.
    SwitchToRoom(String),
}

/// The URL to open for `url`: as it is where it starts with `http://` or
/// `https://`, else with `https://` in front.
pub open spec fn url_to_open(url: Seq<char>) -> Seq<char> {
    if "http://"@.is_prefix_of(url) || "https://"@.is_prefix_of(url) {
        url
    } else {
        "https://"@ + url
    }
}

/// The index of the link that number key `c` opens: `1` to `9` the first
/// nine, `0` the tenth.
pub open spec fn number_key_index(c: char) -> Option<usize> {
    if '1' <= c <= '9' {
        Some((c as u32 - '1' as u32) as usize)
    } else if c == '0' {
        Some(9)
    } else {
        None
    }
}

/// The number key that opens link `id`, if any.
pub fn number_key(id: usize) -> (r: Option<char>)
    ensures
        match r {
            Some(c) => id < 10 && number_key_index(c) == Some(id),
            None => id >= 10,
        },
{
    if id < 9 {
        let c = ((id as u8) + 49u8) as char;
        Some(c)
    } else if id == 9 {
        Some('0')
    } else {
        None
    }
}

/// How a link is shown: a URL as it is, a room as `&name`.
pub fn link_display(link: &Link) -> (r: String)
    ensures
        r@ == match link_text(*link) {
            LinkText::Url(u) => u,
            LinkText::Room(n) => seq!['&'] + n,
        },
{
    match link {
        Link::Url(url) => url.clone(),
        Link::Room(name) => {
            let mut s = String::from_str("&");
            s.append(name.as_str());
            proof {
                reveal_strlit("&");
            }
            s
        },
    }
}

/// How the links popup reacts to a key: aborting closes it, confirming
/// opens the selected link, list keys move in the list, and a number key
/// opens the link with that number.
pub open spec fn links_reaction(old: LinksState, new: LinksState, keys: KeyMatches, number: Option<char>, r: LinksAction) -> bool {
    &&& new.spec_links() == old.spec_links()
    &&& keys.abort ==> r is Close && new == old
    &&& !keys.abort && keys.confirm ==> new == old && match old.spec_list().spec_cursor_id() {
        Some(id) => id < old.spec_links().len() ==> match old.spec_links()[id as int] {
            LinkText::Url(u) => r matches LinksAction::OpenUrl(o) && o@ == url_to_open(u),
            LinkText::Room(n) => r matches LinksAction::SwitchToRoom(m) && m@ == n,
        },
        None => r is Handled
    }
    &&& !keys.abort && !keys.confirm && is_list_key(keys) ==> r is Handled && list_key_effect(
        keys,
        old.spec_list(),
        new.spec_list()
    )
    &&& !keys.abort && !keys.confirm && !is_list_key(keys) ==> new == old && match number {
        Some(c) => match number_key_index(c) {
            Some(id) => id < old.spec_links().len() ==> match old.spec_links()[id as int] {
                LinkText::Url(u) => r matches LinksAction::OpenUrl(o) && o@ == url_to_open(u),
                LinkText::Room(n) => r matches LinksAction::SwitchToRoom(m) && m@ == n,
            },
            None => r is NotHandled,
        },
        None => r is NotHandled
    }
}

/// The rows of the links list: one per link, selected by its number, or a
/// single row that cannot be selected where there are no links.
pub open spec fn link_rows(n: nat) -> Seq<Option<usize>> {
    if n == 0 {
        seq![None]
    } else {
        Seq::new(n, |i: int| Some(i as usize))
    }
}

/// Laying out the links list: a row per link (or one that cannot be
/// selected where there are none), the cursor moved to a fitting row, and
/// for each row whether it is drawn as selected.
pub open spec fn links_built(old: LinksState, new: LinksState, r: Seq<bool>) -> bool {
    let rows = link_rows(old.spec_links().len());
    &&& new.spec_links() == old.spec_links()
    &&& new.spec_list().spec_rows() == rows
    &&& new.spec_list().cursor_on_selectable()
    &&& new.spec_list().spec_cursor_idx() is None <==> old.spec_links().len() == 0
    &&& match old.spec_list().fixed_cursor_row(rows) {
        Some(j) => old.spec_list().moved_cursor_among(rows, new.spec_list(), Some(j)),
        None => new.spec_list().spec_cursor_idx() is None,
    }
    &&& r.len() == rows.len()
    &&& forall|i: int| 0 <= i < r.len() ==> #[trigger] r[i] == row_selected(rows[i], new.spec_list().spec_cursor_id())
}

impl LinksState {
    pub closed spec fn spec_links(&self) -> Seq<LinkText> {
        self.links@.map_values(|l: Link| link_text(l))
    }

    pub closed spec fn spec_list(&self) -> ListState<usize> {
        self.list
    }

    /// The links of `content`: its URLs and the rooms it names, ordered by
    /// where they start and end.
    pub fn new(content: &str, emoji: &Emoji) -> (r: Self)
        ensures
            exists|e: Seq<EntryText>|
                entries_sorted(e) && e.to_multiset() == (url_entries(content@) + room_entries(
                    content@,
                    spans_of(content@, *emoji),
                )).to_multiset() && r.spec_links() == e.map_values(|x: EntryText| x.2),
            r.spec_list().spec_cursor_idx() is None,
    {
        let urls = find_url_links(content);
        assert(url_views(urls@) =~= linkify_url_links(content@));
        Self::from_url_links(content, &urls, emoji)
    }

    /// The links of `content`, given the URL links found in it (their start
    /// and end byte offsets and their text): those URLs and the rooms it
    /// names, ordered by where they start and end.
    pub fn from_url_links(content: &str, urls: &Vec<(usize, usize, String)>, emoji: &Emoji) -> (r: Self)
        ensures
            exists|e: Seq<EntryText>|
                entries_sorted(e) && e.to_multiset() == (entries_of_urls(url_views(urls@)) + room_entries(
                    content@,
                    spans_of(content@, *emoji),
                )).to_multiset() && r.spec_links() == e.map_values(|x: EntryText| x.2),
            r.spec_list().spec_cursor_idx() is None,
    {
        let ghost given = entries_of_urls(url_views(urls@));
        let mut entries: Vec<(usize, usize, Link)> = Vec::new();
        let mut k: usize = 0;
        while k < urls.len()
            invariant
                k <= urls@.len(),
                given == entries_of_urls(url_views(urls@)),
                entries@.map_values(|e: (usize, usize, Link)| entry_text(e)) =~= given.take(k as int),
            decreases urls@.len() - k,
        {
            let (start, end, ref text) = urls[k];
            let ghost prev = entries@;
            let link = Link::Url(text.clone());
            entries.push((start, end, link));
            assert(entries@.map_values(|e: (usize, usize, Link)| entry_text(e)) =~= prev.map_values(
                |e: (usize, usize, Link)| entry_text(e),
            ).push(entry_text((start, end, link))));
            assert(given.take(k + 1) =~= given.take(k as int).push(given[k as int]));
            k += 1;
        }
        assert(given.take(urls@.len() as int) =~= given);

        let spans = find_char_spans(content, emoji);
        let (chars, offsets) = chars_and_offsets(content);
        let ghost all_spans = spans_of(content@, *emoji);
        proof {
            crate::highlight::lemma_spans_well_formed(content@, *emoji);
        }
        let ghost urls_part = given;
        let mut j: usize = 0;
        while j < spans.len()
            invariant
                j <= spans@.len(),
                spans@.len() == all_spans.len(),
                forall|i: int|
                    0 <= i < spans@.len() ==> {
                        &&& (#[trigger] spans@[i]).0 == all_spans[i].0
                        &&& spans@[i].1 == all_spans[i].1
                        &&& spans@[i].2 == all_spans[i].2
                    },
                crate::highlight::spans_well_formed(content@, *emoji, all_spans, content@.len() as int),
                chars@ == content@,
                offsets@.len() == content@.len() + 1,
                forall|i: int| 0 <= i <= content@.len() ==> #[trigger] offsets@[i] == byte_offset(content@, i),
                entries@.map_values(|e: (usize, usize, Link)| entry_text(e)) =~= urls_part + room_entries(
                    content@,
                    all_spans.take(j as int),
                ),
            decreases spans@.len() - j,
        {
            let (t, s, e) = spans[j];
            assert(all_spans.take(j + 1).drop_last() =~= all_spans.take(j as int));
            assert(all_spans.take(j + 1).last() == all_spans[j as int]);
            let ghost prev = entries@;
            if t == SpanType::Room {
                assert(0 <= s < e <= content@.len());
                let name = string_from_chars(chars.as_slice(), s + 1, e);
                let entry = (offsets[s], offsets[e], Link::Room(name));
                entries.push(entry);
                assert(entries@.map_values(|x: (usize, usize, Link)| entry_text(x)) =~= prev.map_values(
                    |x: (usize, usize, Link)| entry_text(x),
                ).push(entry_text(entry)));
            }
            j += 1;
        }
        assert(all_spans.take(spans@.len() as int) =~= all_spans);
        let ghost candidates = entries@.map_values(|e: (usize, usize, Link)| entry_text(e));
        sort_entries(&mut entries);
        let ghost sorted = entries@.map_values(|e: (usize, usize, Link)| entry_text(e));
        let mut links: Vec<Link> = Vec::new();
        let mut i: usize = 0;
        while i < entries.len()
            invariant
                i <= entries@.len(),
                sorted == entries@.map_values(|e: (usize, usize, Link)| entry_text(e)),
                links@.map_values(|l: Link| link_text(l)) =~= sorted.take(i as int).map_values(|x: EntryText| x.2),
            decreases entries@.len() - i,
        {
            let ghost prev = links@;
            let link = entries[i].2.clone_link();
            links.push(link);
            assert(links@.map_values(|l: Link| link_text(l)) =~= prev.map_values(|l: Link| link_text(l)).push(
                link_text(link),
            ));
            assert(sorted.take(i + 1) =~= sorted.take(i as int).push(sorted[i as int]));
            assert(sorted.take(i + 1).map_values(|x: EntryText| x.2) =~= sorted.take(i as int).map_values(
                |x: EntryText| x.2,
            ).push(sorted[i as int].2));
            i += 1;
        }
        assert(sorted.take(entries@.len() as int) =~= sorted);
        let r = LinksState { links, list: ListState::new() };
        assert(r.spec_links() == sorted.map_values(|x: EntryText| x.2));
        r
    }

    /// The number of links.
    pub fn len(&self) -> (r: usize)
        ensures
            r == self.spec_links().len(),
    {
        self.links.len()
    }

    /// The links, in order.
    pub fn links(&self) -> (r: &Vec<Link>)
        ensures
            r@.map_values(|l: Link| link_text(l)) == self.spec_links(),
    {
        &self.links
    }

    /// Lays out the list: a row that cannot be selected where there are no
    /// links, else a row per link. Returns whether each row is selected.
    pub fn build_list(&mut self) -> (r: Vec<bool>)
        ensures
            links_built(*old(self), *final(self), r@),
    {
        let mut builder: ListBuilder<usize> = ListBuilder::new();
        if self.links.len() == 0 {
            builder.add_unsel();
        }
        let mut id: usize = 0;
        while id < self.links.len()
            invariant
                id <= self.links@.len(),
                self.links@.len() == 0 ==> builder.spec_rows() == seq![None::<usize>],
                self.links@.len() > 0 ==> builder.spec_rows() == Seq::new(id as nat, |i: int| Some(i as usize)),
            decreases self.links@.len() - id,
        {
            builder.add_sel(id);
            assert(builder.spec_rows() =~= Seq::new((id + 1) as nat, |i: int| Some(i as usize)));
            id += 1;
        }
        proof {
            if self.links@.len() > 0 {
                assert(builder.spec_rows() =~= link_rows(self.links@.len()));
            } else {
                assert(builder.spec_rows() =~= link_rows(0));
            }
            if self.links@.len() > 0 {
                assert(selectable(link_rows(self.links@.len()), 0));
            } else {
                assert forall|j: int| 0 <= j < 1 implies !#[trigger] selectable(link_rows(0), j) by {}
            }
        }
        builder.build(&mut self.list)
    }


    /// What opening link `id` does: a URL is opened (with `https://` in front
    /// where it has no scheme), a room is shown.
    pub fn open_link_by_id(&self, id: usize) -> (r: LinksAction)
        ensures
            id < self.spec_links().len() ==> match self.spec_links()[id as int] {
                LinkText::Url(u) => r matches LinksAction::OpenUrl(o) && o@ == url_to_open(u),
                LinkText::Room(n) => r matches LinksAction::SwitchToRoom(m) && m@ == n,
            },
            id >= self.spec_links().len() ==> r is Handled,
    {
        if id >= self.links.len() {
            return LinksAction::Handled;
        }
        match &self.links[id] {
            Link::Url(url) => {
                if starts_with(url.as_str(), "http://") || starts_with(url.as_str(), "https://") {
                    LinksAction::OpenUrl(url.clone())
                } else {
                    let mut link = String::from_str("https://");
                    link.append(url.as_str());
                    LinksAction::OpenUrl(link)
                }
            },
            Link::Room(name) => LinksAction::SwitchToRoom(name.clone()),
        }
    }

    /// Reacts to a key: aborting closes the popup, confirming opens the
    /// selected link, cursor and scroll keys move in the list, and the
    /// number key `number` (a character typed without modifiers) opens the
    /// link it stands for.
    pub fn handle_input_event(&mut self, keys: &KeyMatches, number: Option<char>) -> (r: LinksAction)
        ensures
            links_reaction(*old(self), *final(self), *keys, number, r),
    {
        if keys.abort {
            return LinksAction::Close;
        }
        if keys.confirm {
            return match self.list.selected() {
                Some(id) => self.open_link_by_id(*id),
                None => LinksAction::Handled,
            };
        }
        if handle_list_input_event(&mut self.list, keys) {
            return LinksAction::Handled;
        }
        match number {
            Some(c) => {
                if '1' <= c && c <= '9' {
                    let id = (c as u32 - 49u32) as usize;
                    self.open_link_by_id(id)
                } else if c == '0' {
                    self.open_link_by_id(9)
                } else {
                    LinksAction::NotHandled
                }
            },
            None => LinksAction::NotHandled,
        }
    }
}

impl Link {
    /// A copy of the link.
    pub fn clone_link(&self) -> (r: Self)
        ensures
            r == *self,
    {
        match self {
            Link::Url(u) => Link::Url(u.clone()),
            Link::Room(n) => Link::Room(n.clone()),
        }
    }
}

} // verus!
