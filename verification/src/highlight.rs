//! Finding mentions, room links and emoji in message content.

use vstd::prelude::*;

use crate::emoji::Emoji;
use crate::text::{
    byte_offset, chars_and_offsets, lemma_byte_offset_monotone, string_from_chars,
    unicode_alphanumeric, unicode_whitespace, char_is_alphanumeric, char_is_whitespace,
};

verus! {

/// The kinds of spans that are highlighted in message content.
#[derive(Debug, Clone, Copy, PartialEq, Eq, Structural)]
pub enum SpanType {
    Mention,
    Room,
    Emoji,
}

/// Characters that can continue a mention.
pub open spec fn spec_nick_char(ch: char) -> bool {
    match ch {
        ',' | '.' | '!' | '?' | ';' | '&' | '<' | '>' | '\'' | '"' => false,
        _ => !unicode_whitespace(ch),
    }
}

/// Characters that can continue a room link: ASCII letters and digits and `_`.
pub open spec fn spec_room_char(ch: char) -> bool {
    ('a' <= ch <= 'z') || ('A' <= ch <= 'Z') || ('0' <= ch <= '9') || ch == '_'
}

/// State of the span search: the open span (its type and first character),
/// whether a mention or room may start at the next character, and the spans
/// found so far as (type, first character, end character).
pub type SpanState = (Option<(SpanType, int)>, bool, Seq<(SpanType, int, int)>);

/// Characters `start..end` of `chars` form a span of type `t`.
pub open spec fn valid_span(chars: Seq<char>, emoji: Emoji, t: SpanType, start: int, end: int) -> bool {
    match t {
        SpanType::Mention => end - start > 1 && chars[start] == '@',
        SpanType::Room => end - start > 1 && chars[start] == '&',
        SpanType::Emoji => end - start > 2 && chars[start] == ':' && chars[end - 1] == ':'
            && emoji.lookup(chars.subrange(start + 1, end - 1)) is Some,
    }
}

/// Closes the open span, if any, at `end`, keeping it if it is valid.
pub open spec fn spec_close(chars: Seq<char>, emoji: Emoji, st: SpanState, end: int) -> SpanState {
    match st.0 {
        None => st,
        Some((t, start)) => (
            None,
            st.1,
            if valid_span(chars, emoji, t, start, end) {
                st.2.push((t, start, end))
            } else {
                st.2
            },
        ),
    }
}

/// Closes the open span at `start` and opens one of type `t` there.
pub open spec fn spec_open(
    chars: Seq<char>,
    emoji: Emoji,
    st: SpanState,
    t: SpanType,
    start: int,
) -> SpanState {
    let c = spec_close(chars, emoji, st, start);
    (Some((t, start)), c.1, c.2)
}

/// Processes character `i`.
pub open spec fn spec_step(chars: Seq<char>, emoji: Emoji, st: SpanState, i: int) -> SpanState {
    let c = chars[i];
    let next = if c == '@' && st.1 {
        spec_open(chars, emoji, st, SpanType::Mention, i)
    } else if c == '&' && st.1 {
        spec_open(chars, emoji, st, SpanType::Room, i)
    } else {
        match st.0 {
            None => if c == ':' {
                spec_open(chars, emoji, st, SpanType::Emoji, i)
            } else {
                st
            },
            Some((SpanType::Emoji, _)) => if c == ':' {
                spec_close(chars, emoji, st, i + 1)
            } else {
                st
            },
            Some((SpanType::Mention, _)) => if !spec_nick_char(c) {
                spec_close(chars, emoji, st, i)
            } else {
                st
            },
            Some((SpanType::Room, _)) => if !spec_room_char(c) {
                spec_close(chars, emoji, st, i)
            } else {
                st
            },
        }
    };
    (next.0, !unicode_alphanumeric(c), next.2)
}

/// The state after processing the first `n` characters.
pub open spec fn spec_scan(chars: Seq<char>, emoji: Emoji, n: int) -> SpanState
    decreases n,
{
    if n <= 0 {
        (None, true, Seq::empty())
    } else {
        spec_step(chars, emoji, spec_scan(chars, emoji, n - 1), n - 1)
    }
}

/// The spans of `chars`, as (type, first character, end character).
pub open spec fn spans_of(chars: Seq<char>, emoji: Emoji) -> Seq<(SpanType, int, int)> {
    spec_close(chars, emoji, spec_scan(chars, emoji, chars.len() as int), chars.len() as int).2
}

/// The spans lie within the first `n` characters, are valid, ascending and
/// do not overlap.
pub open spec fn spans_well_formed(chars: Seq<char>, emoji: Emoji, spans: Seq<(SpanType, int, int)>, n: int) -> bool {
    &&& forall|k: int|
        0 <= k < spans.len() ==> 0 <= (#[trigger] spans[k]).1 < spans[k].2 <= n && valid_span(
            chars,
            emoji,
            spans[k].0,
            spans[k].1,
            spans[k].2,
        )
    &&& forall|k: int, l: int| 0 <= k < l < spans.len() ==> #[trigger] spans[k].2 <= #[trigger] spans[l].1
}

/// The search state after `n` characters: found spans are well-formed and end
/// before the open span, which started before `n`.
pub open spec fn scan_inv(chars: Seq<char>, emoji: Emoji, st: SpanState, n: int) -> bool {
    &&& spans_well_formed(chars, emoji, st.2, n)
    &&& match st.0 {
        Some((_, s)) => 0 <= s < n && (st.2.len() > 0 ==> st.2.last().2 <= s),
        None => true,
    }
}

proof fn lemma_close_inv(chars: Seq<char>, emoji: Emoji, st: SpanState, n: int, end: int)
    requires
        scan_inv(chars, emoji, st, n),
        st.0 matches Some((_, s)) ==> s < end,
        end <= n,
    ensures
        scan_inv(chars, emoji, spec_close(chars, emoji, st, end), n),
        spec_close(chars, emoji, st, end).2.len() > 0 ==> spec_close(chars, emoji, st, end).2.last().2 <= end
            || spec_close(chars, emoji, st, end).2 == st.2,
{
    if let Some((t, s)) = st.0 {
        if valid_span(chars, emoji, t, s, end) {
            let r = st.2.push((t, s, end));
            assert forall|k: int, l: int| 0 <= k < l < r.len() implies #[trigger] r[k].2 <= #[trigger] r[l].1 by {
                if l == r.len() - 1 && k < l {
                    if k < st.2.len() - 1 {
                        assert(st.2[k].2 <= st.2[st.2.len() - 1].1);
                    }
                }
            }
        }
    }
}

/// The search state stays well-formed while scanning.
pub proof fn lemma_scan_inv(chars: Seq<char>, emoji: Emoji, n: int)
    requires
        0 <= n <= chars.len(),
    ensures
        scan_inv(chars, emoji, spec_scan(chars, emoji, n), n),
    decreases n,
{
    if n > 0 {
        lemma_scan_inv(chars, emoji, n - 1);
        let st = spec_scan(chars, emoji, n - 1);
        let i = n - 1;
        let c = chars[i];
        assert(scan_inv(chars, emoji, st, n));
        if (c == '@' || c == '&') && st.1 {
            lemma_close_inv(chars, emoji, st, n, i);
        } else {
            match st.0 {
                None => {},
                Some((SpanType::Emoji, _)) => {
                    lemma_close_inv(chars, emoji, st, n, i + 1);
                },
                Some(_) => {
                    lemma_close_inv(chars, emoji, st, n, i);
                },
            }
        }
    }
}

/// The spans of a message are valid, ascending and do not overlap.
pub proof fn lemma_spans_well_formed(chars: Seq<char>, emoji: Emoji)
    ensures
        spans_well_formed(chars, emoji, spans_of(chars, emoji), chars.len() as int),
{
    lemma_scan_inv(chars, emoji, chars.len() as int);
    lemma_close_inv(
        chars,
        emoji,
        spec_scan(chars, emoji, chars.len() as int),
        chars.len() as int,
        chars.len() as int,
    );
}

/// The characters that end a mention: whitespace and `, . ! ? ; & < > ' "`.
pub open spec fn ends_mention(c: char) -> bool {
    c == ',' || c == '.' || c == '!' || c == '?' || c == ';' || c == '&' || c == '<' || c == '>' || c == '\''
        || c == '"' || unicode_whitespace(c)
}

/// A mention at characters `s..e` reaches as far as it can: no character
/// after the `@` ends a mention, and it stops at the end of the text, at a
/// character that ends mentions, or where a new mention or room link starts.
pub open spec fn mention_maximal(chars: Seq<char>, s: int, e: int) -> bool {
    &&& forall|k: int| s < k < e ==> !ends_mention(#[trigger] chars[k])
    &&& e == chars.len() || ends_mention(chars[e]) || chars[e] == '@' || chars[e] == '&'
}

/// The mentions found and the open one (up to `n`) reach as far as they can.
pub open spec fn mentions_inv(chars: Seq<char>, st: SpanState, n: int) -> bool {
    &&& forall|j: int|
        0 <= j < st.2.len() && (#[trigger] st.2[j]).0 == SpanType::Mention ==> mention_maximal(
            chars,
            st.2[j].1,
            st.2[j].2,
        )
    &&& st.0 matches Some((SpanType::Mention, s)) ==> forall|k: int| s < k < n ==> !ends_mention(#[trigger] chars[k])
}

proof fn lemma_close_mentions(chars: Seq<char>, emoji: Emoji, st: SpanState, n: int, end: int)
    requires
        mentions_inv(chars, st, n),
        end <= n,
        st.0 matches Some((SpanType::Mention, _)) ==> end == chars.len() || ends_mention(chars[end])
            || chars[end] == '@' || chars[end] == '&',
    ensures
        mentions_inv(chars, spec_close(chars, emoji, st, end), n),
{
    let c = spec_close(chars, emoji, st, end);
    if let Some((t, s)) = st.0 {
        if valid_span(chars, emoji, t, s, end) {
            assert forall|j: int| 0 <= j < c.2.len() && (#[trigger] c.2[j]).0 == SpanType::Mention implies mention_maximal(
                chars,
                c.2[j].1,
                c.2[j].2,
            ) by {
                if j < st.2.len() {
                    assert(c.2[j] == st.2[j]);
                }
            }
        }
    }
}

proof fn lemma_scan_mentions(chars: Seq<char>, emoji: Emoji, n: int)
    requires
        0 <= n <= chars.len(),
    ensures
        mentions_inv(chars, spec_scan(chars, emoji, n), n),
    decreases n,
{
    if n > 0 {
        lemma_scan_mentions(chars, emoji, n - 1);
        let st = spec_scan(chars, emoji, n - 1);
        let i = n - 1;
        let c = chars[i];
        if (c == '@' || c == '&') && st.1 {
            lemma_close_mentions(chars, emoji, st, n - 1, i);
        } else {
            match st.0 {
                None => {},
                Some((SpanType::Emoji, _)) => {
                    assert(mentions_inv(chars, st, n));
                    lemma_close_mentions(chars, emoji, st, n, i + 1);
                },
                Some((SpanType::Mention, s)) => {
                    if !spec_nick_char(c) {
                        lemma_close_mentions(chars, emoji, st, n - 1, i);
                    } else {
                        assert(!ends_mention(c));
                    }
                },
                Some((SpanType::Room, _)) => {
                    if !spec_room_char(c) {
                        lemma_close_mentions(chars, emoji, st, n - 1, i);
                    }
                },
            }
        }
    }
}

/// Every mention found reaches as far as it can: no character after its
/// `@` is whitespace or one of `, . ! ? ; & < > ' "`, and it ends at the end
/// of the text, at such a character, or where a new mention or room link
/// starts.
pub proof fn lemma_mentions_maximal(chars: Seq<char>, emoji: Emoji)
    ensures
        forall|j: int|
            0 <= j < spans_of(chars, emoji).len() && (#[trigger] spans_of(chars, emoji)[j]).0
                == SpanType::Mention ==> mention_maximal(
                chars,
                spans_of(chars, emoji)[j].1,
                spans_of(chars, emoji)[j].2,
            ),
{
    let n = chars.len() as int;
    lemma_scan_mentions(chars, emoji, n);
    lemma_close_mentions(chars, emoji, spec_scan(chars, emoji, n), n, n);
}

/// Whether `ch` can continue a mention.
fn nick_char(ch: char) -> (r: bool)
    ensures
        r == spec_nick_char(ch),
{
    // Closely following the heim mention regex. `>` has been experimentally
    // confirmed to delimit mentions as well.
    match ch {
        ',' | '.' | '!' | '?' | ';' | '&' | '<' | '>' | '\'' | '"' => false,
        _ => !char_is_whitespace(ch),
    }
}

/// Whether `ch` can continue a room link.
fn room_char(ch: char) -> (r: bool)
    ensures
        r == spec_room_char(ch),
{
    ('a' <= ch && ch <= 'z') || ('A' <= ch && ch <= 'Z') || ('0' <= ch && ch <= '9') || ch == '_'
}

struct SpanFinder<'a> {
    chars: Vec<char>,
    emoji: &'a Emoji,
    span: Option<(SpanType, usize)>,
    room_or_mention_possible: bool,
    result: Vec<(SpanType, usize, usize)>,
}

impl<'a> SpanFinder<'a> {
    spec fn state(&self) -> SpanState {
        (
            match self.span {
                Some((t, s)) => Some((t, s as int)),
                None => None,
            },
            self.room_or_mention_possible,
            self.result@.map_values(|r: (SpanType, usize, usize)| (r.0, r.1 as int, r.2 as int)),
        )
    }

    fn is_valid_span(&self, span: SpanType, start: usize, end: usize) -> (r: bool)
        requires
            start < end <= self.chars.len(),
        ensures
            r == valid_span(self.chars@, *self.emoji, span, start as int, end as int),
    {
        match span {
            SpanType::Mention => end - start > 1 && self.chars[start] == '@',
            SpanType::Room => end - start > 1 && self.chars[start] == '&',
            SpanType::Emoji => {
                if end - start <= 2 {
                    return false;
                }
                if self.chars[start] != ':' || self.chars[end - 1] != ':' {
                    return false;
                }
                let name = string_from_chars(self.chars.as_slice(), start + 1, end - 1);
                self.emoji.get(&name).is_some()
            },
        }
    }

    fn close_span(&mut self, end: usize)
        requires
            old(self).span matches Some((_, s)) ==> s < end,
            end <= old(self).chars.len(),
        ensures
            final(self).state() == spec_close(old(self).chars@, *old(self).emoji, old(self).state(), end as int),
            final(self).chars == old(self).chars,
            final(self).emoji == old(self).emoji,
    {
        let Some((span, start)) = self.span else {
            return ;
        };
        if self.is_valid_span(span, start, end) {
            self.result.push((span, start, end));
            assert(self.result@.map_values(|r: (SpanType, usize, usize)| (r.0, r.1 as int, r.2 as int))
                =~= old(self).state().2.push((span, start as int, end as int)));
        }
        self.span = None;
    }

    fn open_span(&mut self, span: SpanType, start: usize)
        requires
            old(self).span matches Some((_, s)) ==> s < start,
            start <= old(self).chars.len(),
        ensures
            final(self).state() == spec_open(old(self).chars@, *old(self).emoji, old(self).state(), span, start as int),
            final(self).chars == old(self).chars,
            final(self).emoji == old(self).emoji,
    {
        self.close_span(start);
        self.span = Some((span, start));
    }

    fn step(&mut self, idx: usize)
        requires
            idx < old(self).chars.len(),
            old(self).span matches Some((_, s)) ==> s < idx,
        ensures
            final(self).state() == spec_step(old(self).chars@, *old(self).emoji, old(self).state(), idx as int),
            final(self).chars == old(self).chars,
            final(self).emoji == old(self).emoji,
    {
        let char = self.chars[idx];
        if char == '@' && self.room_or_mention_possible {
            self.open_span(SpanType::Mention, idx);
        } else if char == '&' && self.room_or_mention_possible {
            self.open_span(SpanType::Room, idx);
        } else {
            match self.span {
                None => if char == ':' {
                    self.open_span(SpanType::Emoji, idx);
                },
                Some((SpanType::Emoji, _)) => if char == ':' {
                    self.close_span(idx + 1);
                },
                Some((SpanType::Mention, _)) => if !nick_char(char) {
                    self.close_span(idx);
                },
                Some((SpanType::Room, _)) => if !room_char(char) {
                    self.close_span(idx);
                },
            }
        }

        // More permissive than the heim web client
        self.room_or_mention_possible = !char_is_alphanumeric(char);
    }

    /// The spans of `content`, as character ranges.
    fn scan(content: &str, emoji: &'a Emoji) -> (r: Vec<(SpanType, usize, usize)>)
        ensures
            r@.len() == spans_of(content@, *emoji).len(),
            forall|k: int|
                0 <= k < r@.len() ==> {
                    let s = spans_of(content@, *emoji)[k];
                    &&& (#[trigger] r@[k]).0 == s.0
                    &&& r@[k].1 == s.1
                    &&& r@[k].2 == s.2
                },
    {
        let (chars, offsets) = chars_and_offsets(content);
        let n = chars.len();
        let mut this = Self {
            chars,
            emoji,
            span: None,
            room_or_mention_possible: true,
            result: Vec::new(),
        };
        assert(this.state().2 =~= Seq::empty());

        let mut idx: usize = 0;
        while idx < n
            invariant
                idx <= n,
                n == this.chars.len(),
                this.chars@ == content@,
                this.emoji == emoji,
                this.state() == spec_scan(content@, *emoji, idx as int),
                this.span matches Some((_, s)) ==> s < idx,
            decreases n - idx,
        {
            proof {
                lemma_scan_inv(content@, *emoji, idx as int);
            }
            this.step(idx);
            idx += 1;
            proof {
                lemma_scan_inv(content@, *emoji, idx as int);
            }
        }

        proof {
            lemma_scan_inv(content@, *emoji, n as int);
        }
        this.close_span(n);
        let ghost spans = spans_of(content@, *emoji);
        assert forall|j: int| 0 <= j < spans.len() implies (#[trigger] this.result@[j]).0 == spans[j].0
            && this.result@[j].1 == spans[j].1 && this.result@[j].2 == spans[j].2 by {
            assert(this.state().2[j] == spans[j]);
        }
        this.result
    }

    fn find(content: &str, emoji: &'a Emoji) -> (r: Vec<(SpanType, core::ops::Range<usize>)>)
        ensures
            byte_offset(content@, content@.len() as int) == content.len(),
            r@.len() == spans_of(content@, *emoji).len(),
            forall|k: int|
                0 <= k < r@.len() ==> {
                    let s = spans_of(content@, *emoji)[k];
                    &&& (#[trigger] r@[k]).0 == s.0
                    &&& r@[k].1.start == byte_offset(content@, s.1)
                    &&& r@[k].1.end == byte_offset(content@, s.2)
                },
    {
        let result = Self::scan(content, emoji);
        let (chars, offsets) = chars_and_offsets(content);
        let ghost spans = spans_of(content@, *emoji);
        proof {
            lemma_spans_well_formed(content@, *emoji);
        }
        let mut out: Vec<(SpanType, core::ops::Range<usize>)> = Vec::new();
        let mut k: usize = 0;
        while k < result.len()
            invariant
                k <= result.len(),
                result@.len() == spans.len(),
                forall|j: int| 0 <= j < spans.len() ==> (#[trigger] result@[j]).0 == spans[j].0
                    && result@[j].1 == spans[j].1 && result@[j].2 == spans[j].2,
                spans_well_formed(content@, *emoji, spans, content@.len() as int),
                offsets@.len() == content@.len() + 1,
                forall|i: int| 0 <= i <= content@.len() ==> #[trigger] offsets@[i] == byte_offset(content@, i),
                out@.len() == k,
                forall|j: int|
                    0 <= j < k ==> {
                        &&& (#[trigger] out@[j]).0 == spans[j].0
                        &&& out@[j].1.start == byte_offset(content@, spans[j].1)
                        &&& out@[j].1.end == byte_offset(content@, spans[j].2)
                    },
            decreases result.len() - k,
        {
            let (t, start, end) = result[k];
            assert(result@[k as int].2 == spans[k as int].2);
            out.push((t, offsets[start]..offsets[end]));
            k += 1;
        }
        out
    }
}

/// Finds the mentions (`@nick`), room links (`&room`) and emoji (`:name:`,
/// where `name` is in `emoji`) in `content`, as ranges of characters.
pub fn find_char_spans(content: &str, emoji: &Emoji) -> (r: Vec<(SpanType, usize, usize)>)
    ensures
        r@.len() == spans_of(content@, *emoji).len(),
        forall|k: int|
            0 <= k < r@.len() ==> {
                let s = spans_of(content@, *emoji)[k];
                &&& (#[trigger] r@[k]).0 == s.0
                &&& r@[k].1 == s.1
                &&& r@[k].2 == s.2
            },
{
    SpanFinder::scan(content, emoji)
}

/// Finds the mentions (`@nick`), room links (`&room`) and emoji (`:name:`,
/// where `name` is in `emoji`) in `content`, as byte ranges into `content`.
/// The spans are ascending and do not overlap.
pub fn find_spans(content: &str, emoji: &Emoji) -> (r: Vec<(SpanType, core::ops::Range<usize>)>)
    ensures
        r@.len() == spans_of(content@, *emoji).len(),
        forall|k: int|
            0 <= k < r@.len() ==> {
                let s = spans_of(content@, *emoji)[k];
                &&& (#[trigger] r@[k]).0 == s.0
                &&& r@[k].1.start == byte_offset(content@, s.1)
                &&& r@[k].1.end == byte_offset(content@, s.2)
            },
        forall|k: int| 0 <= k < r@.len() ==> (#[trigger] r@[k]).1.start < r@[k].1.end <= content.len(),
        forall|k: int, l: int| 0 <= k < l < r@.len() ==> (#[trigger] r@[k]).1.end <= (#[trigger] r@[l]).1.start,
{
    let r = SpanFinder::find(content, emoji);
    proof {
        let chars = content@;
        let spans = spans_of(chars, *emoji);
        lemma_spans_well_formed(chars, *emoji);
        crate::text::lemma_byte_offset_end(chars);
        assert forall|k: int| 0 <= k < r@.len() implies (#[trigger] r@[k]).1.start < r@[k].1.end <= content.len() by {
            lemma_byte_offset_monotone(chars, spans[k].1, spans[k].2);
            if spans[k].2 < chars.len() {
                lemma_byte_offset_monotone(chars, spans[k].2, chars.len() as int);
            }
        }
        assert forall|k: int, l: int| 0 <= k < l < r@.len() implies (#[trigger] r@[k]).1.end <= (#[trigger] r@[l]).1.start by {
            assert(spans[k].2 <= spans[l].1);
            if spans[k].2 < spans[l].1 {
                lemma_byte_offset_monotone(chars, spans[k].2, spans[l].1);
            }
        }
    }
    r
}


/// How a piece of highlighted content is drawn.
#[derive(Debug, Clone, Copy, PartialEq, Eq, Structural)]
pub enum Tint {
    /// In the base style.
    Base,
    /// Bold, in the color of the nick; unless `exact`, the emoji in the
    /// nick are shown replaced.
    Nick { exact: bool },
    /// Blue and bold.
    Room,
    /// In magenta: an emoji name or code that is shown as written.
    EmojiName,
}

/// `text` without one `:` at its start and one at its end.
pub open spec fn strip_colons(text: Seq<char>) -> Seq<char> {
    let a = if text.len() > 0 && text[0] == ':' {
        text.drop_first()
    } else {
        text
    };
    if a.len() > 0 && a.last() == ':' {
        a.drop_last()
    } else {
        a
    }
}

/// How the span `start..end` of type `t` of `content` is shown: mentions in
/// the color of the nick, rooms in blue, emoji codes (unless `exact`)
/// replaced by their replacement, or shown as their name in magenta where
/// they have none.
pub open spec fn span_piece(
    content: Seq<char>,
    t: SpanType,
    start: int,
    end: int,
    emoji: Emoji,
    exact: bool,
) -> (Seq<char>, Tint) {
    let text = content.subrange(start, end);
    match t {
        SpanType::Mention => (text, Tint::Nick { exact }),
        SpanType::Room => (text, Tint::Room),
        SpanType::Emoji => if exact {
            (text, Tint::EmojiName)
        } else {
            match emoji.lookup(strip_colons(text)) {
                Some(Some(replacement)) => (replacement, Tint::Base),
                _ => (strip_colons(text), Tint::EmojiName),
            }
        },
    }
}

/// The pieces of `content` from character `i` on, with the spans from
/// number `k` on highlighted and the text between them in the base style.
pub open spec fn pieces_from(
    content: Seq<char>,
    spans: Seq<(SpanType, usize, usize)>,
    emoji: Emoji,
    exact: bool,
    k: int,
    i: int,
) -> Seq<(Seq<char>, Tint)>
    decreases spans.len() - k,
{
    if k < 0 || k >= spans.len() {
        if i < content.len() {
            seq![(content.subrange(i, content.len() as int), Tint::Base)]
        } else {
            seq![]
        }
    } else {
        let (t, start, end) = spans[k];
        let gap = if i < start {
            seq![(content.subrange(i, start as int), Tint::Base)]
        } else {
            seq![]
        };
        gap + seq![span_piece(content, t, start as int, end as int, emoji, exact)] + pieces_from(
            content,
            spans,
            emoji,
            exact,
            k + 1,
            end as int,
        )
    }
}

/// The spans lie within `content` (as character ranges), in order and
/// without overlapping.
pub open spec fn spans_in_order(content: Seq<char>, spans: Seq<(SpanType, usize, usize)>) -> bool {
    &&& forall|k: int| 0 <= k < spans.len() ==> (#[trigger] spans[k]).1 <= spans[k].2 <= content.len()
    &&& forall|k: int, l: int| 0 <= k < l < spans.len() ==> (#[trigger] spans[k]).2 <= (#[trigger] spans[l]).1
}

/// `text` without one `:` at its start and one at its end.
fn strip_colon_chars(chars: &Vec<char>, start: usize, end: usize) -> (r: (usize, usize))
    requires
        start <= end <= chars@.len(),
    ensures
        start <= r.0 <= r.1 <= end,
        chars@.subrange(r.0 as int, r.1 as int) == strip_colons(chars@.subrange(start as int, end as int)),
{
    let ghost text = chars@.subrange(start as int, end as int);
    let mut a = start;
    if a < end && chars[a] == ':' {
        a += 1;
        assert(chars@.subrange(a as int, end as int) =~= text.drop_first());
    }
    let mut b = end;
    if a < b && chars[b - 1] == ':' {
        b -= 1;
        assert(chars@.subrange(a as int, b as int) =~= chars@.subrange(a as int, end as int).drop_last());
    }
    (a, b)
}

/// Splits `content` into the pieces to draw: the spans (as character
/// ranges, such as [`find_char_spans`] gives) highlighted, the text between
/// them in the base style. Unless `exact`, emoji codes are replaced.
pub fn apply_spans(content: &str, spans: &Vec<(SpanType, usize, usize)>, emoji: &Emoji, exact: bool) -> (r: Vec<(String, Tint)>)
    requires
        spans_in_order(content@, spans@),
    ensures
        r@.len() == pieces_from(content@, spans@, *emoji, exact, 0, 0).len(),
        forall|j: int|
            0 <= j < r@.len() ==> (#[trigger] r@[j]).0@ == pieces_from(content@, spans@, *emoji, exact, 0, 0)[j].0
                && r@[j].1 == pieces_from(content@, spans@, *emoji, exact, 0, 0)[j].1,
{
    let (chars, _) = chars_and_offsets(content);
    let ghost all = pieces_from(content@, spans@, *emoji, exact, 0, 0);
    let mut out: Vec<(String, Tint)> = Vec::new();
    let mut i: usize = 0;
    let mut k: usize = 0;
    while k < spans.len()
        invariant
            chars@ == content@,
            spans_in_order(content@, spans@),
            k <= spans@.len(),
            k == 0 ==> i == 0,
            k > 0 ==> i == spans@[k - 1].2,
            i <= content@.len(),
            all == pieces_from(content@, spans@, *emoji, exact, 0, 0),
            out@.len() + pieces_from(content@, spans@, *emoji, exact, k as int, i as int).len() == all.len(),
            forall|j: int|
                0 <= j < out@.len() ==> (#[trigger] out@[j]).0@ == all[j].0 && out@[j].1 == all[j].1,
            forall|j: int|
                0 <= j < pieces_from(content@, spans@, *emoji, exact, k as int, i as int).len() ==> #[trigger] pieces_from(
                    content@,
                    spans@,
                    *emoji,
                    exact,
                    k as int,
                    i as int,
                )[j] == all[out@.len() + j],
        decreases spans@.len() - k,
    {
        let (t, start, end) = spans[k];
        let ghost rest = pieces_from(content@, spans@, *emoji, exact, k as int, i as int);
        let ghost gap = if i < start {
            seq![(content@.subrange(i as int, start as int), Tint::Base)]
        } else {
            seq![]
        };
        let ghost piece = span_piece(content@, t, start as int, end as int, *emoji, exact);
        let ghost next = pieces_from(content@, spans@, *emoji, exact, k + 1, end as int);
        assert(rest == gap + seq![piece] + next);
        if k > 0 {
            assert(spans@[k - 1].2 <= spans@[k as int].1);
        }
        let ghost n0 = out@.len();
        if i < start {
            out.push((string_from_chars(chars.as_slice(), i, start), Tint::Base));
            assert(rest[0] == gap[0]);
        }
        let ghost n1 = out@.len();
        match t {
            SpanType::Mention => {
                out.push((string_from_chars(chars.as_slice(), start, end), Tint::Nick { exact }));
            },
            SpanType::Room => {
                out.push((string_from_chars(chars.as_slice(), start, end), Tint::Room));
            },
            SpanType::Emoji => {
                if exact {
                    out.push((string_from_chars(chars.as_slice(), start, end), Tint::EmojiName));
                } else {
                    let (a, b) = strip_colon_chars(&chars, start, end);
                    let name = string_from_chars(chars.as_slice(), a, b);
                    match emoji.get(&name) {
                        Some(Some(replacement)) => {
                            out.push((replacement.clone(), Tint::Base));
                        },
                        _ => {
                            out.push((name, Tint::EmojiName));
                        },
                    }
                }
            },
        }
        assert(out@[n1 as int].0@ == piece.0 && out@[n1 as int].1 == piece.1);
        assert(rest[n1 - n0] == piece);
        assert forall|j: int| 0 <= j < next.len() implies #[trigger] next[j] == all[out@.len() + j] by {
            assert(rest[(n1 - n0) + 1 + j] == next[j]);
        }
        i = end;
        k += 1;
    }
    let ghost rest = pieces_from(content@, spans@, *emoji, exact, k as int, i as int);
    if i < chars.len() {
        let n = chars.len();
        out.push((string_from_chars(chars.as_slice(), i, n), Tint::Base));
        assert(rest[0] == all[out@.len() - 1]);
    }
    out
}


/// Spans with their character positions as `usize`.
pub open spec fn usize_spans(spans: Seq<(SpanType, int, int)>) -> Seq<(SpanType, usize, usize)> {
    spans.map_values(|s: (SpanType, int, int)| (s.0, s.1 as usize, s.2 as usize))
}

/// The pieces of a message's content to draw: its mentions, room links and
/// emoji highlighted, the rest in the base style. Unless `exact`, emoji
/// codes are replaced.
pub fn highlight(content: &str, emoji: &Emoji, exact: bool) -> (r: Vec<(String, Tint)>)
    ensures
        r@.len() == pieces_from(content@, usize_spans(spans_of(content@, *emoji)), *emoji, exact, 0, 0).len(),
        forall|j: int|
            0 <= j < r@.len() ==> (#[trigger] r@[j]).0@ == pieces_from(
                content@,
                usize_spans(spans_of(content@, *emoji)),
                *emoji,
                exact,
                0,
                0,
            )[j].0 && r@[j].1 == pieces_from(
                content@,
                usize_spans(spans_of(content@, *emoji)),
                *emoji,
                exact,
                0,
                0,
            )[j].1,
{
    let spans = find_char_spans(content, emoji);
    proof {
        let s = spans_of(content@, *emoji);
        lemma_spans_well_formed(content@, *emoji);
        assert(spans@ =~= usize_spans(s));
    }
    apply_spans(content, &spans, emoji, exact)
}

} // verus!
