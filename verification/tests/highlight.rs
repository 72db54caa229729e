use cove::emoji::Emoji;
use cove::highlight::{apply_spans, find_char_spans, find_spans, highlight, SpanType, Tint};

#[test]
fn mentions() {
    let emoji = Emoji::empty();
    assert_eq!(find_spans("@foo", &emoji), vec![(SpanType::Mention, 0..4)]);
    assert_eq!(find_spans("a @foo b", &emoji), vec![(SpanType::Mention, 2..6)]);
    assert_eq!(find_spans("@@foo@", &emoji), vec![(SpanType::Mention, 1..6)]);
    assert_eq!(find_spans("a @b@c d", &emoji), vec![(SpanType::Mention, 2..6)]);
    assert_eq!(
        find_spans("a @b @c d", &emoji),
        vec![(SpanType::Mention, 2..4), (SpanType::Mention, 5..7)]
    );
}

#[test]
fn rooms() {
    let emoji = Emoji::empty();
    assert_eq!(find_spans("&foo", &emoji), vec![(SpanType::Room, 0..4)]);
    assert_eq!(find_spans("a &foo b", &emoji), vec![(SpanType::Room, 2..6)]);
    assert_eq!(find_spans("&&foo&", &emoji), vec![(SpanType::Room, 1..5)]);
    assert_eq!(find_spans("a &b&c d", &emoji), vec![(SpanType::Room, 2..4)]);
    assert_eq!(
        find_spans("a &b &c d", &emoji),
        vec![(SpanType::Room, 2..4), (SpanType::Room, 5..7)]
    );
}

fn table() -> Emoji {
    Emoji::new(vec![
        (String::from("smile"), Some(String::from("\u{1F604}"))),
        (String::from("custom"), None),
    ])
}

fn owned(pieces: &[(&str, Tint)]) -> Vec<(String, Tint)> {
    pieces.iter().map(|(t, k)| (t.to_string(), *k)).collect()
}

#[test]
fn emoji_spans_are_known_names() {
    let emoji = table();
    assert_eq!(
        find_spans("a :smile: :nope: :custom:", &emoji),
        vec![(SpanType::Emoji, 2..9), (SpanType::Emoji, 17..25)]
    );
    assert_eq!(find_char_spans("é:smile:", &emoji), vec![(SpanType::Emoji, 1, 8)]);
}

#[test]
fn highlight_splits_and_replaces() {
    let emoji = table();
    assert_eq!(
        highlight("hi @bob, see &room :smile: and :custom:!", &emoji, false),
        owned(&[
            ("hi ", Tint::Base),
            ("@bob", Tint::Nick { exact: false }),
            (", see ", Tint::Base),
            ("&room", Tint::Room),
            (" ", Tint::Base),
            ("\u{1F604}", Tint::Base),
            (" and ", Tint::Base),
            ("custom", Tint::EmojiName),
            ("!", Tint::Base),
        ])
    );
    assert_eq!(
        highlight(":smile:@a", &emoji, true),
        owned(&[(":smile:", Tint::EmojiName), ("@a", Tint::Nick { exact: true })])
    );
    assert_eq!(highlight("", &emoji, false), owned(&[]));
    assert_eq!(highlight("plain", &emoji, false), owned(&[("plain", Tint::Base)]));
}

#[test]
fn apply_spans_uses_given_ranges() {
    let emoji = table();
    let spans = vec![(SpanType::Room, 0, 2), (SpanType::Mention, 2, 4)];
    assert_eq!(
        apply_spans("ab\u{e9}d tail", &spans, &emoji, false),
        owned(&[("ab", Tint::Room), ("\u{e9}d", Tint::Nick { exact: false }), (" tail", Tint::Base)])
    );
}
